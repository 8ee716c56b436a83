//! The YAML emitter: one `data:` block per node, each field an item of a
//! block sequence.

use vstd::prelude::*;
use vstd::string::*;
use crate::node::{views, NodeModel, NodeView};
use crate::storage::{
    field_value, infer_schema, resolve_field, schema_of, sources_split, views_from_sources, FieldRef,
    FieldValue, StorageOptions,
};
use crate::text::{concat, has_alphanumeric, is_named, some_alphanumeric, str_seq};

verus! {

/// The nested items of a list of classes.
pub open spec fn yaml_class_items(classes: Seq<Seq<char>>) -> Seq<Seq<char>> {
    classes.map_values(|c: Seq<char>| "\n    - "@ + c)
}

/// The item of field `f` of node `n`; `None` where the node lacks the field,
/// has no class, or where the text has no alphanumeric character.
pub open spec fn yaml_item(n: NodeModel, f: Seq<char>) -> Option<Seq<char>> {
    match field_value(n, f) {
        FieldValue::Absent => None,
        FieldValue::Scalar(s) => if f == "text"@ && !some_alphanumeric(s) {
            None
        } else {
            Some("- "@ + f + ": "@ + s)
        },
        FieldValue::Classes(c) => if c.len() == 0 {
            None
        } else {
            Some("- "@ + f + ": "@ + concat(yaml_class_items(c)))
        },
    }
}

/// The items of a node's block, each on a line of its own, in schema order.
pub open spec fn yaml_items(n: NodeModel, schema: Seq<Seq<char>>) -> Seq<char>
    decreases schema.len(),
{
    if schema.len() == 0 {
        Seq::empty()
    } else {
        yaml_items(n, schema.drop_last()) + match yaml_item(n, schema.last()) {
            Some(item) => "\n  "@ + item,
            None => Seq::empty(),
        }
    }
}

/// Chunk `k` of a YAML run: the block of node `k`, on a new line after the
/// first, and the last followed by the newline that ends the document.
pub open spec fn yaml_chunk(nodes: Seq<NodeModel>, schema: Seq<Seq<char>>, k: int) -> Seq<char> {
    (if k > 0 {
        "\n"@
    } else {
        Seq::empty()
    }) + "data:"@ + yaml_items(nodes[k], schema) + if k == nodes.len() - 1 {
        "\n"@
    } else {
        Seq::empty()
    }
}

/// Emits a YAML document one block at a time.
pub struct ScraperYAMLGenerator {
    /// The nodes to write, in order.
    pub nodes: Vec<NodeView>,
    /// The fields of every block.
    pub schema: Vec<String>,
    /// The positions of the given fragments that were not element markup.
    pub malformed: Vec<usize>,
    /// How many blocks have been emitted.
    pub index: usize,
}

impl ScraperYAMLGenerator {
    /// How many chunks the run has.
    pub open spec fn chunk_count(&self) -> nat {
        self.nodes@.len()
    }

    /// How many chunks have been emitted.
    pub open spec fn position(&self) -> nat {
        self.index as nat
    }

    /// The emission state is consistent.
    pub open spec fn wf(&self) -> bool {
        self.index <= self.nodes@.len()
    }

    /// Chunk `k` of the run.
    pub open spec fn chunk(&self, k: int) -> Seq<char> {
        yaml_chunk(views(self.nodes@), str_seq(self.schema@), k)
    }

    /// A run over `nodes`.
    pub fn from_views(nodes: Vec<NodeView>, options: &StorageOptions) -> (r: Self)
        ensures
            r.nodes@ == nodes@,
            str_seq(r.schema@) == schema_of(views(nodes@), *options),
            r.malformed@.len() == 0,
            r.wf(),
            r.position() == 0,
    {
        let schema = infer_schema(&nodes, options);
        ScraperYAMLGenerator { nodes, schema, malformed: Vec::new(), index: 0 }
    }

    /// A run over the elements that the markup fragments of `data` hold.
    pub fn new(data: &Vec<String>, options: &StorageOptions) -> (r: Self)
        ensures
            sources_split(data@, r.nodes@, r.malformed@),
            str_seq(r.schema@) == schema_of(views(r.nodes@), *options),
            r.wf(),
            r.position() == 0,
    {
        let (nodes, malformed) = views_from_sources(data);
        let mut r = Self::from_views(nodes, options);
        r.malformed = malformed;
        r
    }

    /// The next chunk, or `None` once all have been emitted.
    pub fn next(&mut self) -> (r: Option<String>)
        requires
            old(self).wf(),
        ensures
            final(self).wf(),
            final(self).nodes == old(self).nodes,
            final(self).schema == old(self).schema,
            final(self).malformed == old(self).malformed,
            old(self).position() < old(self).chunk_count() ==> r is Some && r->0@ == old(self).chunk(
                old(self).position() as int,
            ) && final(self).position() == old(self).position() + 1,
            old(self).position() >= old(self).chunk_count() ==> r is None && final(self).position()
                == old(self).position(),
    {
        if self.index < self.nodes.len() {
            let mut chunk = if self.index > 0 {
                String::from_str("\n")
            } else {
                String::new()
            };
            chunk.append("data:");
            let items = yaml_block(&self.nodes[self.index], &self.schema);
            chunk.append(items.as_str());
            if self.index + 1 == self.nodes.len() {
                chunk.append("\n");
            }
            self.index = self.index + 1;
            return Some(chunk);
        }
        None
    }
}

/// The item of field `f` of a node, if it is written.
fn yaml_item_of(node: &NodeView, f: &String) -> (r: Option<String>)
    ensures
        match r {
            Some(s) => yaml_item(node@, f@) == Some(s@),
            None => yaml_item(node@, f@) is None,
        },
{
    match resolve_field(node, f) {
        FieldRef::Absent => None,
        FieldRef::Scalar(s) => {
            if is_named(f, "text") && !has_alphanumeric(s.as_str()) {
                return None;
            }
            let mut r = String::from_str("- ");
            r.append(f.as_str());
            r.append(": ");
            r.append(s.as_str());
            Some(r)
        },
        FieldRef::Classes => {
            if node.classes.len() == 0 {
                return None;
            }
            let mut r = String::from_str("- ");
            r.append(f.as_str());
            r.append(": ");
            let ghost head = r@;
            let ghost items = yaml_class_items(node@.classes);
            let mut i: usize = 0;
            while i < node.classes.len()
                invariant
                    i <= node.classes.len(),
                    items == yaml_class_items(node@.classes),
                    r@ == head + concat(items.take(i as int)),
                decreases node.classes.len() - i,
            {
                r.append("\n    - ");
                r.append(node.classes[i].as_str());
                assert(items.take(i + 1).drop_last() =~= items.take(i as int));
                assert(items[i as int] == "\n    - "@ + node.classes@[i as int]@);
                i += 1;
            }
            assert(items.take(i as int) =~= items);
            Some(r)
        },
    }
}

/// The items of one node's block.
fn yaml_block(node: &NodeView, schema: &Vec<String>) -> (r: String)
    ensures
        r@ == yaml_items(node@, str_seq(schema@)),
{
    let mut r = String::new();
    let mut i: usize = 0;
    while i < schema.len()
        invariant
            i <= schema.len(),
            r@ == yaml_items(node@, str_seq(schema@).take(i as int)),
        decreases schema.len() - i,
    {
        assert(str_seq(schema@).take(i + 1).drop_last() =~= str_seq(schema@).take(i as int));
        assert(str_seq(schema@).take(i + 1).last() == schema@[i as int]@);
        if let Some(item) = yaml_item_of(node, &schema[i]) {
            r.append("\n  ");
            r.append(item.as_str());
        }
        i += 1;
    }
    assert(str_seq(schema@).take(i as int) =~= str_seq(schema@));
    r
}

} // verus!
