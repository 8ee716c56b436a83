//! Output configuration, the rendering of one field of a node, and schema
//! inference: the field list shared by every record of a run.

use vstd::prelude::*;
use vstd::string::*;
use crate::dom::{parse_accepts, parse_document, DomNode};
use crate::node::{copy_opt, element_model, views, NodeModel, NodeView};
use crate::scrap::attribute_value;
use crate::text::{
    add_all_new, add_new, contains_string, is_named, opt_str, lemma_add_all_new_contains,
    lemma_add_all_new_distinct, lemma_str_seq_push, lemma_take_push, str_seq,
};
use crate::node::attrs_view;

verus! {

/// The output formats.
#[derive(Clone, Copy, Debug, PartialEq, Eq, Structural)]
pub enum FileFormat {
    Txt,
    Json,
    Csv,
    Xml,
    Yaml,
    Custom,
}

/// How selected nodes are written out. An absent option takes its default.
/// In the custom format the consumer of the records is supplied by the
/// caller that runs the emitter, not held here.
#[derive(Debug)]
pub struct StorageOptions {
    /// Where the output goes.
    pub file_name: String,
    /// The format; `Txt` by default.
    pub file_format: Option<FileFormat>,
    /// Whether records carry the tag, id, classes and attributes besides the
    /// text; `false` by default, and then only the text is written.
    pub include_tag_content: Option<bool>,
    /// The fields to write between the tag and the text, in this order; by
    /// default the fields that the nodes have.
    pub include_attributes: Option<Vec<String>>,
    /// Kept for callers that set it; the text field is always written, so
    /// it has no effect.
    pub include_text_content: Option<bool>,
    /// Whether the tag name is written; `true` by default.
    pub include_tag_names: Option<bool>,
    /// Whether JSON and XML are indented; `false` by default.
    pub pretty_print: Option<bool>,
    /// The CSV cell separator; `,` by default.
    pub delimiter: Option<String>,
}

/// The mathematical value of [`StorageOptions`].
pub struct OptionsModel {
    pub file_name: Seq<char>,
    pub file_format: Option<FileFormat>,
    pub include_tag_content: Option<bool>,
    pub include_attributes: Option<Seq<Seq<char>>>,
    pub include_text_content: Option<bool>,
    pub include_tag_names: Option<bool>,
    pub pretty_print: Option<bool>,
    pub delimiter: Option<Seq<char>>,
}

impl View for StorageOptions {
    type V = OptionsModel;

    open spec fn view(&self) -> OptionsModel {
        OptionsModel {
            file_name: self.file_name@,
            file_format: self.file_format,
            include_tag_content: self.include_tag_content,
            include_attributes: match self.include_attributes {
                Some(v) => Some(str_seq(v@)),
                None => None,
            },
            include_text_content: self.include_text_content,
            include_tag_names: self.include_tag_names,
            pretty_print: self.pretty_print,
            delimiter: opt_str(self.delimiter),
        }
    }
}

/// A configuration that cannot be used.
#[derive(Clone, Copy, Debug, PartialEq, Eq, Structural)]
pub enum ConfigError {
    /// The delimiter is the empty string.
    EmptyDelimiter,
    /// A field name asked for is the empty string.
    EmptyFieldName,
}

/// An optional flag, or its default.
pub open spec fn flag(o: Option<bool>, default: bool) -> bool {
    match o {
        Some(b) => b,
        None => default,
    }
}

/// The delimiter in use.
pub open spec fn delimiter_of(o: StorageOptions) -> Seq<char> {
    match o.delimiter {
        Some(d) => d@,
        None => ","@,
    }
}

/// The format in use.
pub open spec fn format_of(o: StorageOptions) -> FileFormat {
    match o.file_format {
        Some(f) => f,
        None => FileFormat::Txt,
    }
}

/// Some name of `v` is the empty string.
pub open spec fn has_empty_name(v: Seq<String>) -> bool {
    exists|i: int| 0 <= i < v.len() && (#[trigger] v[i])@.len() == 0
}

/// What is wrong with a configuration, if anything.
pub open spec fn config_error(o: StorageOptions) -> Option<ConfigError> {
    if o.delimiter matches Some(d) && d@.len() == 0 {
        Some(ConfigError::EmptyDelimiter)
    } else if o.include_attributes matches Some(v) && has_empty_name(v@) {
        Some(ConfigError::EmptyFieldName)
    } else {
        None
    }
}

impl StorageOptions {
    /// Options that write to `filename`, every other option at its default.
    pub fn new(filename: String) -> (r: Self)
        ensures
            r.file_name == filename,
            r.file_format is None,
            r.include_tag_content is None,
            r.include_attributes is None,
            r.include_text_content is None,
            r.include_tag_names is None,
            r.pretty_print is None,
            r.delimiter is None,
    {
        StorageOptions {
            file_name: filename,
            file_format: None,
            include_tag_content: None,
            include_attributes: None,
            include_text_content: None,
            include_tag_names: None,
            pretty_print: None,
            delimiter: None,
        }
    }

    /// A copy of the options.
    pub fn copied(&self) -> (r: Self)
        ensures
            r@ == self@,
    {
        let include_attributes = match &self.include_attributes {
            Some(v) => Some(copy_strings(v)),
            None => None,
        };
        StorageOptions {
            file_name: self.file_name.clone(),
            file_format: self.file_format,
            include_tag_content: self.include_tag_content,
            include_attributes,
            include_text_content: self.include_text_content,
            include_tag_names: self.include_tag_names,
            pretty_print: self.pretty_print,
            delimiter: copy_opt(&self.delimiter),
        }
    }

    /// Checks the configuration before any node is processed.
    pub fn validate(&self) -> (r: Result<(), ConfigError>)
        ensures
            r is Ok <==> config_error(*self) is None,
            r matches Err(e) ==> config_error(*self) == Some(e),
    {
        if let Some(d) = &self.delimiter {
            if d.as_str().is_empty() {
                return Err(ConfigError::EmptyDelimiter);
            }
        }
        if let Some(v) = &self.include_attributes {
            let mut i: usize = 0;
            while i < v.len()
                invariant
                    i <= v.len(),
                    self.include_attributes == Some(*v),
                    !(self.delimiter matches Some(d) && d@.len() == 0),
                    forall|j: int| 0 <= j < i ==> (#[trigger] v@[j])@.len() != 0,
                decreases v.len() - i,
            {
                if v[i].as_str().is_empty() {
                    assert(v@[i as int]@.len() == 0);
                    return Err(ConfigError::EmptyFieldName);
                }
                i += 1;
            }
        }
        Ok(())
    }
}

/// The delimiter in use.
pub fn delimiter(options: &StorageOptions) -> (r: String)
    ensures
        r@ == delimiter_of(*options),
{
    match &options.delimiter {
        Some(d) => d.clone(),
        None => String::from_str(","),
    }
}

/// An optional flag, or its default.
pub fn flag_or(o: Option<bool>, default: bool) -> (r: bool)
    ensures
        r == flag(o, default),
{
    match o {
        Some(b) => b,
        None => default,
    }
}

/// What one field of a node holds.
pub enum FieldValue {
    /// The node lacks the field.
    Absent,
    /// A single value.
    Scalar(Seq<char>),
    /// The classes, a list.
    Classes(Seq<Seq<char>>),
}

/// The field `f` of node `n`: `tag`, `class`, `id` and `text` read the
/// node's own parts, any other name an attribute, where one written without
/// a value reads as the empty string.
pub open spec fn field_value(n: NodeModel, f: Seq<char>) -> FieldValue {
    if f == "tag"@ {
        FieldValue::Scalar(n.tag)
    } else if f == "class"@ {
        FieldValue::Classes(n.classes)
    } else if f == "id"@ {
        match n.id {
            Some(v) => FieldValue::Scalar(v),
            None => FieldValue::Absent,
        }
    } else if f == "text"@ {
        FieldValue::Scalar(n.text)
    } else {
        match attribute_value(n.attributes, f) {
            Some(v) => FieldValue::Scalar(v),
            None => FieldValue::Absent,
        }
    }
}

/// A field of a node as the emitters read it; the classes stay in the node.
pub enum FieldRef {
    Absent,
    Scalar(String),
    Classes,
}

/// `r` stands for the value `v` of a field of `n`.
pub open spec fn field_ref_is(r: FieldRef, n: NodeModel, v: FieldValue) -> bool {
    match r {
        FieldRef::Absent => v is Absent,
        FieldRef::Scalar(s) => v == FieldValue::Scalar(s@),
        FieldRef::Classes => v == FieldValue::Classes(n.classes),
    }
}

/// The field `f` of a node.
pub fn resolve_field(node: &NodeView, f: &String) -> (r: FieldRef)
    ensures
        field_ref_is(r, node@, field_value(node@, f@)),
{
    if is_named(f, "tag") {
        FieldRef::Scalar(node.tag.clone())
    } else if is_named(f, "class") {
        FieldRef::Classes
    } else if is_named(f, "id") {
        match &node.id {
            Some(v) => FieldRef::Scalar(v.clone()),
            None => FieldRef::Absent,
        }
    } else if is_named(f, "text") {
        FieldRef::Scalar(node.text.clone())
    } else {
        let mut found: Option<usize> = None;
        let mut i: usize = 0;
        while i < node.attributes.len()
            invariant
                i <= node.attributes.len(),
                match found {
                    Some(j) => j < node.attributes@.len() && attribute_value(
                        attrs_view(node.attributes@).take(i as int),
                        f@,
                    ) == Some(attr_text(node.attributes@[j as int].1)),
                    None => attribute_value(attrs_view(node.attributes@).take(i as int), f@) is None,
                },
            decreases node.attributes.len() - i,
        {
            assert(attrs_view(node.attributes@).take(i + 1).drop_last() =~= attrs_view(
                node.attributes@,
            ).take(i as int));
            if found.is_none() && node.attributes[i].0 == *f {
                found = Some(i);
            }
            i += 1;
        }
        assert(attrs_view(node.attributes@).take(i as int) =~= attrs_view(node.attributes@));
        match found {
            Some(j) => match &node.attributes[j].1 {
                Some(v) => FieldRef::Scalar(v.clone()),
                None => FieldRef::Scalar(String::new()),
            },
            None => FieldRef::Absent,
        }
    }
}

/// The text of an attribute value, where no value reads as empty.
pub open spec fn attr_text(v: Option<String>) -> Seq<char> {
    match v {
        Some(s) => s@,
        None => Seq::empty(),
    }
}

/// The fields that a node has besides its tag and text: `id` where it has
/// one, `class` where it has a class, then its attribute names.
pub open spec fn node_field_names(n: NodeModel) -> Seq<Seq<char>> {
    (if n.id is Some {
        seq!["id"@]
    } else {
        Seq::empty()
    }) + (if n.classes.len() > 0 {
        seq!["class"@]
    } else {
        Seq::empty()
    }) + n.attributes.map_values(|p: (Seq<char>, Option<Seq<char>>)| p.0)
}

/// The fields that the nodes have, each where it is first seen.
pub open spec fn discovered_fields(nodes: Seq<NodeModel>) -> Seq<Seq<char>>
    decreases nodes.len(),
{
    if nodes.len() == 0 {
        Seq::empty()
    } else {
        add_all_new(discovered_fields(nodes.drop_last()), node_field_names(nodes.last()))
    }
}

/// The discovered fields are distinct, and they are exactly the fields that
/// some node has.
pub proof fn lemma_discovered_fields(nodes: Seq<NodeModel>, x: Seq<char>)
    ensures
        discovered_fields(nodes).no_duplicates(),
        discovered_fields(nodes).contains(x) <==> exists|i: int|
            0 <= i < nodes.len() && #[trigger] node_field_names(nodes[i]).contains(x),
    decreases nodes.len(),
{
    if nodes.len() > 0 {
        let rest = nodes.drop_last();
        lemma_discovered_fields(rest, x);
        lemma_add_all_new_distinct(discovered_fields(rest), node_field_names(nodes.last()));
        lemma_add_all_new_contains(discovered_fields(rest), node_field_names(nodes.last()), x);
        if exists|i: int| 0 <= i < nodes.len() && #[trigger] node_field_names(nodes[i]).contains(x) {
            let i = choose|i: int| 0 <= i < nodes.len() && #[trigger] node_field_names(nodes[i]).contains(x);
            if i < nodes.len() - 1 {
                assert(node_field_names(rest[i]).contains(x));
            }
        }
        if exists|i: int| 0 <= i < rest.len() && #[trigger] node_field_names(rest[i]).contains(x) {
            let i = choose|i: int| 0 <= i < rest.len() && #[trigger] node_field_names(rest[i]).contains(x);
            assert(node_field_names(nodes[i]).contains(x));
        }
        if node_field_names(nodes.last()).contains(x) {
            assert(node_field_names(nodes[nodes.len() - 1]).contains(x));
        }
    }
}

/// The field list of a run: only `text` unless tag content is included;
/// else `tag` where tag names are included, the fields asked for (or else
/// those discovered), and `text` last.
pub open spec fn schema_of(nodes: Seq<NodeModel>, o: StorageOptions) -> Seq<Seq<char>> {
    if !flag(o.include_tag_content, false) {
        seq!["text"@]
    } else {
        (if flag(o.include_tag_names, true) {
            seq!["tag"@]
        } else {
            Seq::empty()
        }) + match o.include_attributes {
            Some(v) => str_seq(v@),
            None => discovered_fields(nodes),
        } + seq!["text"@]
    }
}

/// The fields a node has besides its tag and text.
fn field_names(node: &NodeView) -> (r: Vec<String>)
    ensures
        str_seq(r@) == node_field_names(node@),
{
    let mut r: Vec<String> = Vec::new();
    if node.id.is_some() {
        r.push(String::from_str("id"));
    }
    if node.classes.len() > 0 {
        r.push(String::from_str("class"));
    }
    let ghost head = str_seq(r@);
    let mut i: usize = 0;
    while i < node.attributes.len()
        invariant
            i <= node.attributes.len(),
            r@.len() == head.len() + i,
            str_seq(r@) == head + attrs_view(node.attributes@).map_values(
                |p: (Seq<char>, Option<Seq<char>>)| p.0,
            ).take(i as int),
        decreases node.attributes.len() - i,
    {
        let ghost before = r@;
        let k = node.attributes[i].0.clone();
        r.push(k);
        proof {
            lemma_str_seq_push(before, k);
            let names = attrs_view(node.attributes@).map_values(
                |p: (Seq<char>, Option<Seq<char>>)| p.0,
            );
            assert(names[i as int] == k@);
            lemma_take_push(head, names, i as int);
        }
        i += 1;
    }
    assert(str_seq(r@) =~= node_field_names(node@));
    r
}

/// Appends to `acc` each string of `s` that it does not hold yet.
fn add_all_new_strings(acc: &mut Vec<String>, s: &Vec<String>)
    ensures
        str_seq(final(acc)@) == add_all_new(str_seq(old(acc)@), str_seq(s@)),
{
    let ghost start = str_seq(acc@);
    let mut i: usize = 0;
    while i < s.len()
        invariant
            i <= s.len(),
            str_seq(acc@) == add_all_new(start, str_seq(s@).take(i as int)),
        decreases s.len() - i,
    {
        assert(str_seq(s@).take(i + 1).drop_last() =~= str_seq(s@).take(i as int));
        assert(str_seq(s@).take(i + 1).last() == s@[i as int]@);
        let ghost before = str_seq(acc@);
        if !contains_string(acc, &s[i]) {
            acc.push(s[i].clone());
            assert(str_seq(acc@) =~= before.push(s@[i as int]@));
        }
        assert(str_seq(acc@) == add_new(before, s@[i as int]@));
        i += 1;
    }
    assert(str_seq(s@).take(i as int) =~= str_seq(s@));
}

/// The field list of a run over `nodes`.
pub fn infer_schema(nodes: &Vec<NodeView>, options: &StorageOptions) -> (r: Vec<String>)
    ensures
        str_seq(r@) == schema_of(views(nodes@), *options),
{
    let mut r: Vec<String> = Vec::new();
    if !flag_or(options.include_tag_content, false) {
        r.push(String::from_str("text"));
        assert(str_seq(r@) =~= seq!["text"@]);
        return r;
    }
    if flag_or(options.include_tag_names, true) {
        r.push(String::from_str("tag"));
    }
    let ghost head = str_seq(r@);
    assert(head =~= if flag(options.include_tag_names, true) {
        seq!["tag"@]
    } else {
        Seq::empty()
    });
    match &options.include_attributes {
        Some(v) => {
            let mut i: usize = 0;
            while i < v.len()
                invariant
                    i <= v.len(),
                    r@.len() == head.len() + i,
                    str_seq(r@) == head + str_seq(v@).take(i as int),
                decreases v.len() - i,
            {
                let ghost before = r@;
                let x = v[i].clone();
                r.push(x);
                proof {
                    lemma_str_seq_push(before, x);
                    lemma_take_push(head, str_seq(v@), i as int);
                }
                i += 1;
            }
            assert(str_seq(v@).take(i as int) =~= str_seq(v@));
        },
        None => {
            let mut found: Vec<String> = Vec::new();
            let mut i: usize = 0;
            while i < nodes.len()
                invariant
                    i <= nodes.len(),
                    str_seq(found@) == discovered_fields(views(nodes@).take(i as int)),
                decreases nodes.len() - i,
            {
                assert(views(nodes@).take(i + 1).drop_last() =~= views(nodes@).take(i as int));
                assert(views(nodes@).take(i + 1).last() == nodes@[i as int]@);
                let names = field_names(&nodes[i]);
                add_all_new_strings(&mut found, &names);
                i += 1;
            }
            assert(views(nodes@).take(i as int) =~= views(nodes@));
            let mut j: usize = 0;
            while j < found.len()
                invariant
                    j <= found.len(),
                    r@.len() == head.len() + j,
                    str_seq(r@) == head + str_seq(found@).take(j as int),
                decreases found.len() - j,
            {
                let ghost before = r@;
                let x = found[j].clone();
                r.push(x);
                proof {
                    lemma_str_seq_push(before, x);
                    lemma_take_push(head, str_seq(found@), j as int);
                }
                j += 1;
            }
            assert(str_seq(found@).take(j as int) =~= str_seq(found@));
        },
    }
    let ghost mid = str_seq(r@);
    r.push(String::from_str("text"));
    assert(str_seq(r@) =~= mid + seq!["text"@]);
    r
}

/// A copy of a list of strings.
pub fn copy_strings(v: &Vec<String>) -> (r: Vec<String>)
    ensures
        r@ == v@,
{
    let mut r: Vec<String> = Vec::new();
    let mut i: usize = 0;
    while i < v.len()
        invariant
            i <= v.len(),
            r@ == v@.take(i as int),
        decreases v.len() - i,
    {
        r.push(v[i].clone());
        assert(r@ =~= v@.take(i + 1));
        i += 1;
    }
    assert(v@.take(i as int) =~= v@);
    r
}

/// A cursor over raw records: the markup of each selected node, passed on as
/// it stands.
pub struct ScraperGenerator {
    /// The records, in order.
    pub data: Vec<String>,
    /// The configuration of the run.
    pub options: StorageOptions,
    /// How many records have been handed out.
    pub index: usize,
}

impl ScraperGenerator {
    /// A cursor at the first of `data`.
    pub fn new(data: &Vec<String>, options: &StorageOptions) -> (r: Self)
        ensures
            r.data@ == data@,
            r.options@ == options@,
            r.index == 0,
    {
        ScraperGenerator { data: copy_strings(data), options: options.copied(), index: 0 }
    }

    /// The next record, or `None` once all have been handed out.
    pub fn next(&mut self) -> (r: Option<String>)
        requires
            old(self).index <= old(self).data@.len(),
        ensures
            final(self).index <= final(self).data@.len(),
            final(self).data == old(self).data,
            old(self).index < old(self).data@.len() ==> r is Some && r->0
                == old(self).data@[old(self).index as int] && final(self).index == old(self).index + 1,
            old(self).index >= old(self).data@.len() ==> r is None && final(self).index == old(
                self,
            ).index,
    {
        if self.index < self.data.len() {
            let record = self.data[self.index].clone();
            self.index = self.index + 1;
            return Some(record);
        }
        None
    }
}

/// The view of a fragment's first root node, where that node is an element.
pub fn fragment_view(roots: &Vec<DomNode>) -> (r: Option<NodeView>)
    ensures
        r is Some <==> (roots@.len() > 0 && roots@[0] is Element),
        r matches Some(v) ==> v@ == element_model(roots@[0]->Element_0),
{
    if roots.len() > 0 {
        if let DomNode::Element(e) = &roots[0] {
            return Some(NodeView::from_element(e));
        }
    }
    None
}

/// How markup fragments split into views and malformed positions: the
/// positions are in increasing order, every fragment that the parser
/// rejects is among them, and every fragment that is not among them parsed;
/// the views stand for the other fragments, one each.
pub open spec fn sources_split(data: Seq<String>, nodes: Seq<NodeView>, malformed: Seq<usize>) -> bool {
    &&& nodes.len() + malformed.len() == data.len()
    &&& forall|k: int| 0 <= k < malformed.len() ==> #[trigger] malformed[k] < data.len()
    &&& forall|a: int, b: int| 0 <= a < b < malformed.len() ==> malformed[a] < malformed[b]
    &&& forall|i: int|
        0 <= i < data.len() ==> (!parse_accepts(#[trigger] data[i]@) ==> malformed.contains(i as usize))
    &&& forall|i: int|
        0 <= i < data.len() ==> (!malformed.contains(i as usize) ==> parse_accepts(#[trigger] data[i]@))
}

/// The view of each markup fragment whose first root node is an element,
/// in order, and the positions of the fragments that are not such markup.
pub fn views_from_sources(data: &Vec<String>) -> (r: (Vec<NodeView>, Vec<usize>))
    ensures
        sources_split(data@, r.0@, r.1@),
{
    let mut nodes: Vec<NodeView> = Vec::new();
    let mut malformed: Vec<usize> = Vec::new();
    let mut i: usize = 0;
    while i < data.len()
        invariant
            i <= data.len(),
            nodes@.len() + malformed@.len() == i,
            forall|k: int| 0 <= k < malformed@.len() ==> #[trigger] malformed@[k] < i,
            forall|a: int, b: int| 0 <= a < b < malformed@.len() ==> malformed@[a] < malformed@[b],
            forall|j: int|
                0 <= j < i ==> (!parse_accepts(#[trigger] data@[j]@) ==> malformed@.contains(j as usize)),
            forall|j: int|
                0 <= j < i ==> (!malformed@.contains(j as usize) ==> parse_accepts(#[trigger] data@[j]@)),
        decreases data.len() - i,
    {
        let view = match parse_document(data[i].as_str()) {
            Ok(roots) => fragment_view(&roots),
            Err(_) => None,
        };
        let ghost before = malformed@;
        match view {
            Some(v) => {
                nodes.push(v);
                assert(!malformed@.contains(i));
            },
            None => {
                malformed.push(i);
                assert(malformed@[before.len() as int] == i);
                assert forall|j: int| 0 <= j < i && #[trigger] before.contains(j as usize) implies malformed@.contains(
                    j as usize,
                ) by {
                    let k = choose|k: int| 0 <= k < before.len() && before[k] == j as usize;
                    assert(malformed@[k] == before[k]);
                }
                assert forall|j: int| 0 <= j < i && #[trigger] malformed@.contains(j as usize) implies before.contains(
                    j as usize,
                ) by {
                    let k = choose|k: int| 0 <= k < malformed@.len() && malformed@[k] == j as usize;
                    assert(k < before.len());
                    assert(before[k] == malformed@[k]);
                }
            },
        }
        i += 1;
    }
    (nodes, malformed)
}

} // verus!
