//! The CSV emitter: a header line of field names, then one line per node.

use vstd::prelude::*;
use vstd::string::*;
use crate::node::{views, NodeModel, NodeView};
use crate::storage::{
    delimiter, delimiter_of, field_value, infer_schema, schema_of, resolve_field,
    sources_split, views_from_sources, FieldRef, FieldValue, StorageOptions,
};
use crate::text::{join, join_strings, lemma_str_seq_push, str_seq};

verus! {

/// The cell of field `f` of node `n`: empty where the node lacks the field,
/// the classes joined by single spaces.
pub open spec fn csv_cell(n: NodeModel, f: Seq<char>) -> Seq<char> {
    match field_value(n, f) {
        FieldValue::Absent => Seq::empty(),
        FieldValue::Scalar(s) => s,
        FieldValue::Classes(c) => join(c, " "@),
    }
}

/// The cells of a node's record, one per field of the schema.
pub open spec fn csv_cells(n: NodeModel, schema: Seq<Seq<char>>) -> Seq<Seq<char>> {
    schema.map_values(|f: Seq<char>| csv_cell(n, f))
}

/// One line: the cells joined by the delimiter, and a newline.
pub open spec fn csv_line(cells: Seq<Seq<char>>, delimiter: Seq<char>) -> Seq<char> {
    join(cells, delimiter) + "\n"@
}

/// Chunk `k` of a CSV run: the header first, then the record of each node.
pub open spec fn csv_chunk(nodes: Seq<NodeModel>, schema: Seq<Seq<char>>, delimiter: Seq<char>, k: int) -> Seq<char> {
    if k == 0 {
        csv_line(schema, delimiter)
    } else {
        csv_line(csv_cells(nodes[k - 1], schema), delimiter)
    }
}

/// Emits a CSV document one line at a time.
pub struct ScraperCSVGenerator {
    /// The nodes to write, in order.
    pub nodes: Vec<NodeView>,
    /// The fields of every line.
    pub schema: Vec<String>,
    /// The cell separator.
    pub delimiter: String,
    /// The positions of the given fragments that were not element markup.
    pub malformed: Vec<usize>,
    /// Whether the header is still to come.
    pub first: bool,
    /// How many records have been emitted.
    pub index: usize,
}

impl ScraperCSVGenerator {
    /// How many chunks the run has.
    pub open spec fn chunk_count(&self) -> nat {
        self.nodes@.len() + 1
    }

    /// How many chunks have been emitted.
    pub open spec fn position(&self) -> nat {
        if self.first {
            0
        } else {
            self.index as nat + 1
        }
    }

    /// The emission state is consistent.
    pub open spec fn wf(&self) -> bool {
        &&& self.index <= self.nodes@.len()
        &&& self.first ==> self.index == 0
    }

    /// Chunk `k` of the run.
    pub open spec fn chunk(&self, k: int) -> Seq<char> {
        csv_chunk(views(self.nodes@), str_seq(self.schema@), self.delimiter@, k)
    }

    /// A run over `nodes`.
    pub fn from_views(nodes: Vec<NodeView>, options: &StorageOptions) -> (r: Self)
        ensures
            r.nodes@ == nodes@,
            str_seq(r.schema@) == schema_of(views(nodes@), *options),
            r.delimiter@ == delimiter_of(*options),
            r.malformed@.len() == 0,
            r.wf(),
            r.position() == 0,
    {
        let schema = infer_schema(&nodes, options);
        ScraperCSVGenerator {
            nodes,
            schema,
            delimiter: delimiter(options),
            malformed: Vec::new(),
            first: true,
            index: 0,
        }
    }

    /// A run over the elements that the markup fragments of `data` hold.
    pub fn new(data: &Vec<String>, options: &StorageOptions) -> (r: Self)
        ensures
            sources_split(data@, r.nodes@, r.malformed@),
            str_seq(r.schema@) == schema_of(views(r.nodes@), *options),
            r.delimiter@ == delimiter_of(*options),
            r.wf(),
            r.position() == 0,
    {
        let (nodes, malformed) = views_from_sources(data);
        let mut r = Self::from_views(nodes, options);
        r.malformed = malformed;
        r
    }

    /// Emits the header line: the field names joined by the delimiter.
    pub fn first_gen(&mut self) -> (r: String)
        ensures
            r@ == old(self).chunk(0),
            final(self).nodes == old(self).nodes,
            final(self).schema == old(self).schema,
            final(self).delimiter == old(self).delimiter,
            final(self).malformed == old(self).malformed,
            final(self).index == old(self).index,
            !final(self).first,
    {
        self.first = false;
        let mut line = join_strings(&self.schema, self.delimiter.as_str());
        line.append("\n");
        line
    }

    /// The next chunk, or `None` once all have been emitted.
    pub fn next(&mut self) -> (r: Option<String>)
        requires
            old(self).wf(),
        ensures
            final(self).wf(),
            final(self).nodes == old(self).nodes,
            final(self).schema == old(self).schema,
            final(self).delimiter == old(self).delimiter,
            final(self).malformed == old(self).malformed,
            old(self).position() < old(self).chunk_count() ==> r is Some && r->0@ == old(self).chunk(
                old(self).position() as int,
            ) && final(self).position() == old(self).position() + 1,
            old(self).position() >= old(self).chunk_count() ==> r is None && final(self).position()
                == old(self).position(),
    {
        if self.first {
            return Some(self.first_gen());
        }
        if self.index < self.nodes.len() {
            let line = csv_record(&self.nodes[self.index], &self.schema, &self.delimiter);
            self.index = self.index + 1;
            return Some(line);
        }
        None
    }
}

/// The line of one node.
fn csv_record(node: &NodeView, schema: &Vec<String>, delimiter: &String) -> (r: String)
    ensures
        r@ == csv_line(csv_cells(node@, str_seq(schema@)), delimiter@),
{
    let mut cells: Vec<String> = Vec::new();
    let mut i: usize = 0;
    while i < schema.len()
        invariant
            i <= schema.len(),
            cells@.len() == i,
            str_seq(cells@) == csv_cells(node@, str_seq(schema@)).take(i as int),
        decreases schema.len() - i,
    {
        let cell = match resolve_field(node, &schema[i]) {
            FieldRef::Absent => String::new(),
            FieldRef::Scalar(s) => s,
            FieldRef::Classes => join_strings(&node.classes, " "),
        };
        let ghost before = cells@;
        cells.push(cell);
        proof {
            lemma_str_seq_push(before, cell);
            assert(csv_cells(node@, str_seq(schema@))[i as int] == cell@);
            assert(csv_cells(node@, str_seq(schema@)).take(i + 1) =~= csv_cells(
                node@,
                str_seq(schema@),
            ).take(i as int).push(cell@));
        }
        i += 1;
    }
    assert(csv_cells(node@, str_seq(schema@)).take(i as int) =~= csv_cells(node@, str_seq(schema@)));
    let mut r = join_strings(&cells, delimiter.as_str());
    r.append("\n");
    r
}

/// Every line of a CSV run has one cell per field of the schema: the header
/// holds the field names, and each record line the cells of its node, one
/// per field, in schema order; a field the node lacks keeps its empty cell.
pub proof fn lemma_csv_lines_align(nodes: Seq<NodeModel>, schema: Seq<Seq<char>>, delimiter: Seq<char>, k: int)
    requires
        0 <= k <= nodes.len(),
    ensures
        k == 0 ==> csv_chunk(nodes, schema, delimiter, k) == csv_line(schema, delimiter),
        k > 0 ==> csv_chunk(nodes, schema, delimiter, k) == csv_line(csv_cells(nodes[k - 1], schema), delimiter),
        k > 0 ==> csv_cells(nodes[k - 1], schema).len() == schema.len(),
        k > 0 ==> forall|j: int| 0 <= j < schema.len() ==> (field_value(nodes[k - 1], schema[j]) is Absent
            ==> #[trigger] csv_cells(nodes[k - 1], schema)[j] == Seq::<char>::empty()),
{
}

} // verus!
