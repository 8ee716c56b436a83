//! The JSON emitter: `[`, one object per node, then `]`.

use vstd::prelude::*;
use vstd::string::*;
use crate::node::{views, NodeModel, NodeView};
use crate::storage::{
    field_value, flag, flag_or, infer_schema, resolve_field, schema_of,
    sources_split, views_from_sources, FieldRef, FieldValue, StorageOptions,
};
use crate::text::{
    indent, indent_str, join, join_strings, lemma_str_seq_push, opt_str, quote, quoted, str_seq,
};

verus! {

/// The separator of the items of a list.
pub open spec fn list_separator(pretty: bool) -> Seq<char> {
    if pretty {
        ", "@
    } else {
        ","@
    }
}

/// A JSON list of strings.
pub open spec fn json_list(items: Seq<Seq<char>>, pretty: bool) -> Seq<char> {
    "["@ + join(items.map_values(|c: Seq<char>| quoted(c)), list_separator(pretty)) + "]"@
}

/// The `"name":value` member of field `f` of node `n`, indented; `None`
/// where the node lacks the field.
pub open spec fn json_member(n: NodeModel, f: Seq<char>, pretty: bool) -> Option<Seq<char>> {
    match field_value(n, f) {
        FieldValue::Absent => None,
        FieldValue::Scalar(s) => Some(indent(pretty, 2) + quoted(f) + ":"@ + quoted(s)),
        FieldValue::Classes(c) => Some(indent(pretty, 2) + quoted(f) + ":"@ + json_list(c, pretty)),
    }
}

/// The members of a node's object, in schema order.
pub open spec fn json_members(n: NodeModel, schema: Seq<Seq<char>>, pretty: bool) -> Seq<Seq<char>>
    decreases schema.len(),
{
    if schema.len() == 0 {
        Seq::empty()
    } else {
        let prev = json_members(n, schema.drop_last(), pretty);
        match json_member(n, schema.last(), pretty) {
            Some(m) => prev.push(m),
            None => prev,
        }
    }
}

/// The object of one node, followed by a comma unless it is the last.
pub open spec fn json_record(n: NodeModel, schema: Seq<Seq<char>>, pretty: bool, last: bool) -> Seq<char> {
    indent(pretty, 1) + "{"@ + join(json_members(n, schema, pretty), ","@) + indent(pretty, 1) + "}"@
        + if last {
        Seq::<char>::empty()
    } else {
        ","@
    }
}

/// Chunk `k` of a JSON run: `[`, the object of each node, then `]`.
pub open spec fn json_chunk(nodes: Seq<NodeModel>, schema: Seq<Seq<char>>, pretty: bool, k: int) -> Seq<char> {
    if k == 0 {
        "["@
    } else if k <= nodes.len() {
        json_record(nodes[k - 1], schema, pretty, k == nodes.len())
    } else {
        indent(pretty, 0) + "]"@
    }
}

/// Emits a JSON array one chunk at a time.
pub struct ScraperJSONGenerator {
    /// The nodes to write, in order.
    pub nodes: Vec<NodeView>,
    /// The fields of every object.
    pub schema: Vec<String>,
    /// Whether to indent.
    pub pretty: bool,
    /// The positions of the given fragments that were not element markup.
    pub malformed: Vec<usize>,
    /// Whether `[` is still to come.
    pub first: bool,
    /// How many objects have been emitted.
    pub index: usize,
    /// Whether `]` has been emitted.
    pub closed: bool,
}

impl ScraperJSONGenerator {
    /// How many chunks the run has.
    pub open spec fn chunk_count(&self) -> nat {
        self.nodes@.len() + 2
    }

    /// How many chunks have been emitted.
    pub open spec fn position(&self) -> nat {
        if self.first {
            0
        } else if self.closed {
            self.index as nat + 2
        } else {
            self.index as nat + 1
        }
    }

    /// The emission state is consistent.
    pub open spec fn wf(&self) -> bool {
        &&& self.index <= self.nodes@.len()
        &&& self.first ==> self.index == 0 && !self.closed
        &&& self.closed ==> self.index == self.nodes@.len()
    }

    /// Chunk `k` of the run.
    pub open spec fn chunk(&self, k: int) -> Seq<char> {
        json_chunk(views(self.nodes@), str_seq(self.schema@), self.pretty, k)
    }

    /// A run over `nodes`.
    pub fn from_views(nodes: Vec<NodeView>, options: &StorageOptions) -> (r: Self)
        ensures
            r.nodes@ == nodes@,
            str_seq(r.schema@) == schema_of(views(nodes@), *options),
            r.pretty == flag(options.pretty_print, false),
            r.malformed@.len() == 0,
            r.wf(),
            r.position() == 0,
    {
        let schema = infer_schema(&nodes, options);
        ScraperJSONGenerator {
            nodes,
            schema,
            pretty: flag_or(options.pretty_print, false),
            malformed: Vec::new(),
            first: true,
            index: 0,
            closed: false,
        }
    }

    /// A run over the elements that the markup fragments of `data` hold.
    pub fn new(data: &Vec<String>, options: &StorageOptions) -> (r: Self)
        ensures
            sources_split(data@, r.nodes@, r.malformed@),
            str_seq(r.schema@) == schema_of(views(r.nodes@), *options),
            r.pretty == flag(options.pretty_print, false),
            r.wf(),
            r.position() == 0,
    {
        let (nodes, malformed) = views_from_sources(data);
        let mut r = Self::from_views(nodes, options);
        r.malformed = malformed;
        r
    }

    /// Emits the `[` that opens the array.
    pub fn first_gen(&mut self) -> (r: String)
        ensures
            r@ == old(self).chunk(0),
            final(self).nodes == old(self).nodes,
            final(self).schema == old(self).schema,
            final(self).pretty == old(self).pretty,
            final(self).malformed == old(self).malformed,
            final(self).index == old(self).index,
            final(self).closed == old(self).closed,
            !final(self).first,
    {
        self.first = false;
        String::from_str("[")
    }

    /// The next chunk, or `None` once all have been emitted.
    pub fn next(&mut self) -> (r: Option<String>)
        requires
            old(self).wf(),
        ensures
            final(self).wf(),
            final(self).nodes == old(self).nodes,
            final(self).schema == old(self).schema,
            final(self).pretty == old(self).pretty,
            final(self).malformed == old(self).malformed,
            old(self).position() < old(self).chunk_count() ==> r is Some && r->0@ == old(self).chunk(
                old(self).position() as int,
            ) && final(self).position() == old(self).position() + 1,
            old(self).position() >= old(self).chunk_count() ==> r is None && final(self).position()
                == old(self).position(),
    {
        if self.first {
            return Some(self.first_gen());
        }
        if self.index < self.nodes.len() {
            let last = self.index + 1 == self.nodes.len();
            let chunk = json_object(&self.nodes[self.index], &self.schema, self.pretty, last);
            self.index = self.index + 1;
            return Some(chunk);
        }
        if !self.closed {
            self.closed = true;
            let mut chunk = indent_str(self.pretty, 0);
            chunk.append("]");
            return Some(chunk);
        }
        None
    }
}

/// A JSON list of the strings of `items`.
fn json_list_of(items: &Vec<String>, pretty: bool) -> (r: String)
    ensures
        r@ == json_list(str_seq(items@), pretty),
{
    let mut quoted_items: Vec<String> = Vec::new();
    let mut i: usize = 0;
    while i < items.len()
        invariant
            i <= items.len(),
            quoted_items@.len() == i,
            str_seq(quoted_items@) == str_seq(items@).map_values(|c: Seq<char>| quoted(c)).take(
                i as int,
            ),
        decreases items.len() - i,
    {
        let q = quote(items[i].as_str());
        let ghost before = quoted_items@;
        quoted_items.push(q);
        proof {
            lemma_str_seq_push(before, q);
            assert(str_seq(quoted_items@) =~= str_seq(items@).map_values(|c: Seq<char>| quoted(c)).take(
                i + 1,
            ));
        }
        i += 1;
    }
    assert(str_seq(items@).map_values(|c: Seq<char>| quoted(c)).take(i as int) =~= str_seq(
        items@,
    ).map_values(|c: Seq<char>| quoted(c)));
    let sep = if pretty {
        String::from_str(", ")
    } else {
        String::from_str(",")
    };
    let mut r = String::from_str("[");
    let joined = join_strings(&quoted_items, sep.as_str());
    r.append(joined.as_str());
    r.append("]");
    r
}

/// The member of field `f` of a node, if it has the field.
fn json_member_of(node: &NodeView, f: &String, pretty: bool) -> (r: Option<String>)
    ensures
        opt_str(r) == json_member(node@, f@, pretty),
{
    let value = match resolve_field(node, f) {
        FieldRef::Absent => {
            return None;
        },
        FieldRef::Scalar(s) => quote(s.as_str()),
        FieldRef::Classes => json_list_of(&node.classes, pretty),
    };
    let mut r = indent_str(pretty, 2);
    let name = quote(f.as_str());
    r.append(name.as_str());
    r.append(":");
    r.append(value.as_str());
    Some(r)
}

/// The object of one node.
fn json_object(node: &NodeView, schema: &Vec<String>, pretty: bool, last: bool) -> (r: String)
    ensures
        r@ == json_record(node@, str_seq(schema@), pretty, last),
{
    let mut members: Vec<String> = Vec::new();
    let mut i: usize = 0;
    while i < schema.len()
        invariant
            i <= schema.len(),
            str_seq(members@) == json_members(node@, str_seq(schema@).take(i as int), pretty),
        decreases schema.len() - i,
    {
        assert(str_seq(schema@).take(i + 1).drop_last() =~= str_seq(schema@).take(i as int));
        assert(str_seq(schema@).take(i + 1).last() == schema@[i as int]@);
        if let Some(m) = json_member_of(node, &schema[i], pretty) {
            let ghost before = members@;
            members.push(m);
            proof {
                lemma_str_seq_push(before, m);
            }
        }
        i += 1;
    }
    assert(str_seq(schema@).take(i as int) =~= str_seq(schema@));
    let mut r = indent_str(pretty, 1);
    r.append("{");
    let body = join_strings(&members, ",");
    r.append(body.as_str());
    let close = indent_str(pretty, 1);
    r.append(close.as_str());
    r.append("}");
    if !last {
        r.append(",");
    }
    r
}

} // verus!
