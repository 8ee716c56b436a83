//! The XML emitter: the XML declaration, then one `<data>` element per node.

use vstd::prelude::*;
use vstd::string::*;
use crate::node::{views, NodeModel, NodeView};
use crate::storage::{
    field_value, flag, flag_or, infer_schema, resolve_field, schema_of,
    sources_split, views_from_sources, FieldRef, FieldValue, StorageOptions,
};
use crate::text::{concat, indent, indent_str, str_seq};

verus! {

/// `content` between the opening and the closing tag `name`.
pub open spec fn xml_element(name: Seq<char>, content: Seq<char>) -> Seq<char> {
    "<"@ + name + ">"@ + content + "</"@ + name + ">"@
}

/// The XML declaration that opens the document.
pub open spec fn xml_declaration() -> Seq<char> {
    "<?xml version=\"1.0\" encoding=\"UTF-8\"?>"@
}

/// The `<class>` elements of a list of classes.
pub open spec fn xml_class_items(classes: Seq<Seq<char>>, pretty: bool) -> Seq<Seq<char>> {
    classes.map_values(|c: Seq<char>| indent(pretty, 2) + xml_element("class"@, c))
}

/// The element of field `f` of node `n`; nothing where the node lacks it.
pub open spec fn xml_field(n: NodeModel, f: Seq<char>, pretty: bool) -> Seq<char> {
    match field_value(n, f) {
        FieldValue::Absent => Seq::empty(),
        FieldValue::Scalar(s) => indent(pretty, 1) + xml_element(f, s),
        FieldValue::Classes(c) => indent(pretty, 1) + "<classes>"@ + concat(xml_class_items(c, pretty))
            + indent(pretty, 1) + "</classes>"@,
    }
}

/// The elements of a node's fields, in schema order.
pub open spec fn xml_fields(n: NodeModel, schema: Seq<Seq<char>>, pretty: bool) -> Seq<char>
    decreases schema.len(),
{
    if schema.len() == 0 {
        Seq::empty()
    } else {
        xml_fields(n, schema.drop_last(), pretty) + xml_field(n, schema.last(), pretty)
    }
}

/// The `<data>` element of one node.
pub open spec fn xml_record(n: NodeModel, schema: Seq<Seq<char>>, pretty: bool) -> Seq<char> {
    indent(pretty, 0) + "<data>"@ + xml_fields(n, schema, pretty) + indent(pretty, 0) + "</data>"@
}

/// Chunk `k` of an XML run: the declaration, then the element of each node.
pub open spec fn xml_chunk(nodes: Seq<NodeModel>, schema: Seq<Seq<char>>, pretty: bool, k: int) -> Seq<char> {
    if k == 0 {
        xml_declaration()
    } else {
        xml_record(nodes[k - 1], schema, pretty)
    }
}

/// Emits an XML document one chunk at a time.
pub struct ScraperXMLGenerator {
    /// The nodes to write, in order.
    pub nodes: Vec<NodeView>,
    /// The fields of every record.
    pub schema: Vec<String>,
    /// Whether to indent.
    pub pretty: bool,
    /// The positions of the given fragments that were not element markup.
    pub malformed: Vec<usize>,
    /// Whether the declaration is still to come.
    pub first: bool,
    /// How many records have been emitted.
    pub index: usize,
}

impl ScraperXMLGenerator {
    /// How many chunks the run has.
    pub open spec fn chunk_count(&self) -> nat {
        self.nodes@.len() + 1
    }

    /// How many chunks have been emitted.
    pub open spec fn position(&self) -> nat {
        if self.first {
            0
        } else {
            self.index as nat + 1
        }
    }

    /// The emission state is consistent.
    pub open spec fn wf(&self) -> bool {
        &&& self.index <= self.nodes@.len()
        &&& self.first ==> self.index == 0
    }

    /// Chunk `k` of the run.
    pub open spec fn chunk(&self, k: int) -> Seq<char> {
        xml_chunk(views(self.nodes@), str_seq(self.schema@), self.pretty, k)
    }

    /// A run over `nodes`.
    pub fn from_views(nodes: Vec<NodeView>, options: &StorageOptions) -> (r: Self)
        ensures
            r.nodes@ == nodes@,
            str_seq(r.schema@) == schema_of(views(nodes@), *options),
            r.pretty == flag(options.pretty_print, false),
            r.malformed@.len() == 0,
            r.wf(),
            r.position() == 0,
    {
        let schema = infer_schema(&nodes, options);
        ScraperXMLGenerator {
            nodes,
            schema,
            pretty: flag_or(options.pretty_print, false),
            malformed: Vec::new(),
            first: true,
            index: 0,
        }
    }

    /// A run over the elements that the markup fragments of `data` hold.
    pub fn new(data: &Vec<String>, options: &StorageOptions) -> (r: Self)
        ensures
            sources_split(data@, r.nodes@, r.malformed@),
            str_seq(r.schema@) == schema_of(views(r.nodes@), *options),
            r.pretty == flag(options.pretty_print, false),
            r.wf(),
            r.position() == 0,
    {
        let (nodes, malformed) = views_from_sources(data);
        let mut r = Self::from_views(nodes, options);
        r.malformed = malformed;
        r
    }

    /// Emits the declaration that opens the document.
    pub fn first_gen(&mut self) -> (r: String)
        ensures
            r@ == xml_declaration(),
            final(self).nodes == old(self).nodes,
            final(self).schema == old(self).schema,
            final(self).pretty == old(self).pretty,
            final(self).malformed == old(self).malformed,
            final(self).index == old(self).index,
            !final(self).first,
    {
        self.first = false;
        String::from_str("<?xml version=\"1.0\" encoding=\"UTF-8\"?>")
    }

    /// The next chunk, or `None` once all have been emitted.
    pub fn next(&mut self) -> (r: Option<String>)
        requires
            old(self).wf(),
        ensures
            final(self).wf(),
            final(self).nodes == old(self).nodes,
            final(self).schema == old(self).schema,
            final(self).pretty == old(self).pretty,
            final(self).malformed == old(self).malformed,
            old(self).position() < old(self).chunk_count() ==> r is Some && r->0@ == old(self).chunk(
                old(self).position() as int,
            ) && final(self).position() == old(self).position() + 1,
            old(self).position() >= old(self).chunk_count() ==> r is None && final(self).position()
                == old(self).position(),
    {
        if self.first {
            return Some(self.first_gen());
        }
        if self.index < self.nodes.len() {
            let chunk = xml_data(&self.nodes[self.index], &self.schema, self.pretty);
            self.index = self.index + 1;
            return Some(chunk);
        }
        None
    }
}

/// `content` between the opening and the closing tag `name`.
fn element_str(name: &str, content: &str) -> (r: String)
    ensures
        r@ == xml_element(name@, content@),
{
    let mut r = String::from_str("<");
    r.append(name);
    r.append(">");
    r.append(content);
    r.append("</");
    r.append(name);
    r.append(">");
    r
}

/// The element of field `f` of a node.
fn xml_field_of(node: &NodeView, f: &String, pretty: bool) -> (r: String)
    ensures
        r@ == xml_field(node@, f@, pretty),
{
    match resolve_field(node, f) {
        FieldRef::Absent => String::new(),
        FieldRef::Scalar(s) => {
            let mut r = indent_str(pretty, 1);
            let e = element_str(f.as_str(), s.as_str());
            r.append(e.as_str());
            r
        },
        FieldRef::Classes => {
            let mut r = indent_str(pretty, 1);
            r.append("<classes>");
            let ghost head = r@;
            let ghost items = xml_class_items(node@.classes, pretty);
            let mut i: usize = 0;
            while i < node.classes.len()
                invariant
                    i <= node.classes.len(),
                    items == xml_class_items(node@.classes, pretty),
                    r@ == head + concat(items.take(i as int)),
                decreases node.classes.len() - i,
            {
                let step = indent_str(pretty, 2);
                r.append(step.as_str());
                let e = element_str("class", node.classes[i].as_str());
                r.append(e.as_str());
                assert(items.take(i + 1).drop_last() =~= items.take(i as int));
                assert(items[i as int] == indent(pretty, 2) + xml_element("class"@, node.classes@[i as int]@));
                i += 1;
            }
            assert(items.take(i as int) =~= items);
            let close = indent_str(pretty, 1);
            r.append(close.as_str());
            r.append("</classes>");
            r
        },
    }
}

/// The `<data>` element of one node.
fn xml_data(node: &NodeView, schema: &Vec<String>, pretty: bool) -> (r: String)
    ensures
        r@ == xml_record(node@, str_seq(schema@), pretty),
{
    let mut r = indent_str(pretty, 0);
    r.append("<data>");
    let ghost head = r@;
    let mut i: usize = 0;
    while i < schema.len()
        invariant
            i <= schema.len(),
            r@ == head + xml_fields(node@, str_seq(schema@).take(i as int), pretty),
        decreases schema.len() - i,
    {
        assert(str_seq(schema@).take(i + 1).drop_last() =~= str_seq(schema@).take(i as int));
        assert(str_seq(schema@).take(i + 1).last() == schema@[i as int]@);
        let field = xml_field_of(node, &schema[i], pretty);
        r.append(field.as_str());
        i += 1;
    }
    assert(str_seq(schema@).take(i as int) =~= str_seq(schema@));
    let close = indent_str(pretty, 0);
    r.append(close.as_str());
    r.append("</data>");
    r
}

} // verus!
