//! The parsed document: an owned tree of elements, text and comments, as the
//! markup parser delivers it.

use vstd::prelude::*;

verus! {

/// One node of a parsed document.
pub enum DomNode {
    Element(DomElement),
    Text(String),
    Comment(String),
}

/// An element with its attributes and children.
pub struct DomElement {
    /// The tag name.
    pub name: String,
    /// The value of the `id` attribute, if present.
    pub id: Option<String>,
    /// The words of the `class` attribute, in document order.
    pub classes: Vec<String>,
    /// Every other attribute; `None` for one written without a value.
    pub attributes: Vec<(String, Option<String>)>,
    /// The child nodes, in document order.
    pub children: Vec<DomNode>,
    /// The element's markup as it stands in the source.
    pub source: String,
}

/// Why a document could not be parsed.
#[derive(Debug)]
pub struct ParseError {
    pub reason: String,
}

#[verifier::external_type_specification]
#[verifier::external_body]
pub struct ExHtmlNode(html_parser::Node);

#[verifier::external_type_specification]
#[verifier::external_body]
pub struct ExHtmlError(html_parser::Error);

/// Whether `html_parser::Dom::parse` accepts the markup `raw`; it depends on
/// the text alone.
pub uninterp spec fn parse_accepts(raw: Seq<char>) -> bool;

/// Relies on `html_parser::Dom::parse`: the root nodes of the parsed
/// markup, each converted with its subtree, or the parser's error; which
/// of the two comes depends on the text alone. Nothing is stated of the
/// tree: its attribute order follows a hash map. The
/// parser's `unreachable!` arms and its `expect` on a quoted attribute value
/// are guarded by its grammar, which is taken as given.
#[verifier::external_body]
fn parse_markup(raw: &str) -> (r: Result<Vec<DomNode>, html_parser::Error>)
    ensures
        r is Ok == parse_accepts(raw@),
{
    html_parser::Dom::parse(raw).map(|dom| dom.children.iter().map(convert_node).collect())
}

/// Converts one node of html_parser's tree into this library's tree, field
/// for field; the attributes come in the order html_parser's map yields them.
#[verifier::external_body]
fn convert_node(node: &html_parser::Node) -> (r: DomNode) {
    match node {
        html_parser::Node::Text(t) => DomNode::Text(t.clone()),
        html_parser::Node::Comment(c) => DomNode::Comment(c.clone()),
        html_parser::Node::Element(e) => DomNode::Element(DomElement {
            name: e.name.clone(),
            id: e.id.clone(),
            classes: e.classes.clone(),
            attributes: e.attributes.iter().map(|(k, v)| (k.clone(), v.clone())).collect(),
            children: e.children.iter().map(convert_node).collect(),
            source: e.source_span.text.clone(),
        }),
    }
}

/// Relies on the `Display` impl of `html_parser::Error`: its message.
#[verifier::external_body]
fn error_message(e: &html_parser::Error) -> (r: String) {
    e.to_string()
}

/// Parses markup text into the root nodes of its tree; fails exactly where
/// the parser rejects the text.
pub fn parse_document(raw: &str) -> (r: Result<Vec<DomNode>, ParseError>)
    ensures
        r is Ok <==> parse_accepts(raw@),
{
    match parse_markup(raw) {
        Ok(nodes) => Ok(nodes),
        Err(e) => Err(ParseError { reason: error_message(&e) }),
    }
}

} // verus!
