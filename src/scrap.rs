//! The selection engine: filters over node views, and the depth-first walk
//! of a parsed document that keeps the elements they accept.

use vstd::prelude::*;
use crate::dom::{parse_accepts, parse_document, DomNode, ParseError};
use crate::node::{attrs_view, element_model, views, NodeModel, NodeView};
use crate::text::{
    contains_string, eq_ignoring_ascii_case, is_infix, opt_str, same_ignoring_ascii_case, str_contains,
    str_seq,
};

verus! {

/// How the entries of a filter combine: all must hold, or at least one.
#[derive(Clone, Copy, Debug, PartialEq, Eq, Structural)]
pub enum FilterType {
    And,
    Or,
}

/// The tag names an element may have: a set, so it combines as OR.
pub struct TagFilter {
    pub filter: Vec<String>,
}

/// `(name, value)` pairs that an element's attributes are tested against.
pub struct AttributeFilter {
    pub filter: Vec<(String, String)>,
    pub filter_type: FilterType,
}

/// The ids an element may have.
pub struct IdFilter {
    pub filter: Vec<String>,
}

/// Class names that an element is tested against.
pub struct ClassFilter {
    pub filter: Vec<String>,
    pub filter_type: FilterType,
}

/// Fragments that an element's text is tested against.
pub struct TextFilter {
    pub filter: Vec<String>,
    pub filter_type: FilterType,
}

/// A full selection: the tag set, and the optional filters; an absent filter
/// constrains nothing.
pub struct ScrapeOptions {
    pub tags: TagFilter,
    pub id_filter: Option<IdFilter>,
    pub class_filter: Option<ClassFilter>,
    pub attributes_include: Option<AttributeFilter>,
    pub attributes_exclude: Option<AttributeFilter>,
    pub text_include: Option<TextFilter>,
    pub text_exclude: Option<TextFilter>,
}

/// The node's tag is one of the filter's names.
pub open spec fn tag_holds(f: TagFilter, n: NodeModel) -> bool {
    str_seq(f.filter@).contains(n.tag)
}

/// The node has an id, and it is one of the filter's.
pub open spec fn id_holds(f: IdFilter, n: NodeModel) -> bool {
    match n.id {
        Some(id) => str_seq(f.filter@).contains(id),
        None => false,
    }
}

/// AND: the node has every class named; OR: it has at least one of them.
pub open spec fn class_holds(f: ClassFilter, n: NodeModel) -> bool {
    match f.filter_type {
        FilterType::And => forall|i: int|
            0 <= i < f.filter@.len() ==> n.classes.contains(#[trigger] f.filter@[i]@),
        FilterType::Or => exists|i: int|
            0 <= i < f.filter@.len() && n.classes.contains(#[trigger] f.filter@[i]@),
    }
}

/// The value of the first attribute named `key`, where an attribute written
/// without a value reads as the empty string; `None` where there is none.
pub open spec fn attribute_value(attrs: Seq<(Seq<char>, Option<Seq<char>>)>, key: Seq<char>) -> Option<Seq<char>>
    decreases attrs.len(),
{
    if attrs.len() == 0 {
        None
    } else {
        let prev = attribute_value(attrs.drop_last(), key);
        if prev is Some {
            prev
        } else if attrs.last().0 == key {
            match attrs.last().1 {
                Some(v) => Some(v),
                None => Some(Seq::empty()),
            }
        } else {
            None
        }
    }
}

/// One `(name, value)` pair holds of a node. A name equal to `class` or `id`
/// with ASCII letters in any case tests the classes or the id; any other
/// name tests the attribute of exactly that name.
pub open spec fn pair_holds(n: NodeModel, key: Seq<char>, value: Seq<char>) -> bool {
    if same_ignoring_ascii_case(key, "class"@) {
        n.classes.contains(value)
    } else if same_ignoring_ascii_case(key, "id"@) {
        n.id == Some(value)
    } else {
        attribute_value(n.attributes, key) == Some(value)
    }
}

/// AND: every pair holds; OR: at least one does.
pub open spec fn attribute_holds(f: AttributeFilter, n: NodeModel) -> bool {
    match f.filter_type {
        FilterType::And => forall|i: int|
            0 <= i < f.filter@.len() ==> #[trigger] pair_holds(n, f.filter@[i].0@, f.filter@[i].1@),
        FilterType::Or => exists|i: int|
            0 <= i < f.filter@.len() && #[trigger] pair_holds(n, f.filter@[i].0@, f.filter@[i].1@),
    }
}

/// AND: the text contains every fragment; OR: at least one of them.
pub open spec fn text_holds(f: TextFilter, n: NodeModel) -> bool {
    match f.filter_type {
        FilterType::And => forall|i: int|
            0 <= i < f.filter@.len() ==> is_infix(#[trigger] f.filter@[i]@, n.text),
        FilterType::Or => exists|i: int|
            0 <= i < f.filter@.len() && is_infix(#[trigger] f.filter@[i]@, n.text),
    }
}

/// An optional attribute filter used to keep the nodes it accepts
/// (`exclude` false) or to drop them: absent, it passes every node.
pub open spec fn attribute_gate(f: Option<AttributeFilter>, exclude: bool, n: NodeModel) -> bool {
    match f {
        Some(f) => attribute_holds(f, n) != exclude,
        None => true,
    }
}

/// An optional text filter used to keep or to drop the nodes it accepts.
pub open spec fn text_gate(f: Option<TextFilter>, exclude: bool, n: NodeModel) -> bool {
    match f {
        Some(f) => text_holds(f, n) != exclude,
        None => true,
    }
}

/// The selection accepts the node.
pub open spec fn selected(o: ScrapeOptions, n: NodeModel) -> bool {
    &&& tag_holds(o.tags, n)
    &&& match o.id_filter {
        Some(f) => id_holds(f, n),
        None => true,
    }
    &&& match o.class_filter {
        Some(f) => class_holds(f, n),
        None => true,
    }
    &&& attribute_gate(o.attributes_include, false, n)
    &&& attribute_gate(o.attributes_exclude, true, n)
    &&& text_gate(o.text_include, false, n)
    &&& text_gate(o.text_exclude, true, n)
}

/// The accepted elements of the subtree of `n`, in pre-order.
pub open spec fn select_node(n: DomNode, o: ScrapeOptions) -> Seq<NodeModel>
    decreases n,
{
    match n {
        DomNode::Element(e) => {
            let m = element_model(e);
            (if selected(o, m) {
                seq![m]
            } else {
                Seq::empty()
            }) + select_forest(e.children@, o)
        },
        _ => Seq::empty(),
    }
}

/// The accepted elements of the subtrees of `s`, in document order.
pub open spec fn select_forest(s: Seq<DomNode>, o: ScrapeOptions) -> Seq<NodeModel>
    decreases s,
{
    if s.len() == 0 {
        Seq::empty()
    } else {
        select_forest(s.drop_last(), o) + select_node(s.last(), o)
    }
}

/// The source markup of each node.
pub open spec fn sources(s: Seq<NodeModel>) -> Seq<Seq<char>> {
    s.map_values(|m: NodeModel| m.source)
}

/// Whether the node's tag is in the tag set.
pub fn has_tagname(node: &NodeView, tags: &TagFilter) -> (r: bool)
    ensures
        r == tag_holds(*tags, node@),
{
    contains_string(&tags.filter, &node.tag)
}

/// Whether the node has an id in the filter.
pub fn has_id(node: &NodeView, id_filter: &IdFilter) -> (r: bool)
    ensures
        r == id_holds(*id_filter, node@),
{
    match &node.id {
        Some(id) => contains_string(&id_filter.filter, id),
        None => false,
    }
}

/// Whether the node's classes pass the class filter.
pub fn has_class(node: &NodeView, class_filter: &ClassFilter) -> (r: bool)
    ensures
        r == class_holds(*class_filter, node@),
{
    let all = class_filter.filter_type == FilterType::And;
    let mut i: usize = 0;
    while i < class_filter.filter.len()
        invariant
            i <= class_filter.filter.len(),
            all == (class_filter.filter_type == FilterType::And),
            forall|j: int| 0 <= j < i ==> node@.classes.contains(#[trigger] class_filter.filter@[j]@) == all,
        decreases class_filter.filter.len() - i,
    {
        let found = contains_string(&node.classes, &class_filter.filter[i]);
        assert(str_seq(class_filter.filter@)[i as int] == class_filter.filter@[i as int]@);
        if found != all {
            assert(node@.classes.contains(class_filter.filter@[i as int]@) == found);
            return found;
        }
        i += 1;
    }
    all
}

/// Where the first attribute named `key` stands, if any.
fn find_attribute(attrs: &Vec<(String, Option<String>)>, key: &String) -> (r: Option<usize>)
    ensures
        match r {
            Some(j) => j < attrs@.len() && attribute_value(attrs_view(attrs@), key@) == match opt_str(
                attrs@[j as int].1,
            ) {
                Some(v) => Some(v),
                None => Some(Seq::empty()),
            },
            None => attribute_value(attrs_view(attrs@), key@) is None,
        },
{
    let mut i: usize = 0;
    while i < attrs.len()
        invariant
            i <= attrs.len(),
            attribute_value(attrs_view(attrs@).take(i as int), key@) is None,
        decreases attrs.len() - i,
    {
        assert(attrs_view(attrs@).take(i + 1).drop_last() =~= attrs_view(attrs@).take(i as int));
        if attrs[i].0 == *key {
            proof {
                lemma_attribute_value_prefix(attrs_view(attrs@), key@, i + 1);
            }
            return Some(i);
        }
        i += 1;
    }
    assert(attrs_view(attrs@).take(i as int) =~= attrs_view(attrs@));
    None
}

/// Once a prefix has a value for `key`, the whole sequence has the same one.
proof fn lemma_attribute_value_prefix(attrs: Seq<(Seq<char>, Option<Seq<char>>)>, key: Seq<char>, k: int)
    requires
        0 <= k <= attrs.len(),
        attribute_value(attrs.take(k), key) is Some,
    ensures
        attribute_value(attrs, key) == attribute_value(attrs.take(k), key),
    decreases attrs.len() - k,
{
    if k < attrs.len() {
        assert(attrs.take(k + 1).drop_last() =~= attrs.take(k));
        lemma_attribute_value_prefix(attrs, key, k + 1);
    } else {
        assert(attrs.take(k) =~= attrs);
    }
}

/// Whether one `(name, value)` pair holds of the node.
fn pair_matches(node: &NodeView, key: &String, value: &String) -> (r: bool)
    ensures
        r == pair_holds(node@, key@, value@),
{
    if eq_ignoring_ascii_case(key.as_str(), "class") {
        contains_string(&node.classes, value)
    } else if eq_ignoring_ascii_case(key.as_str(), "id") {
        match &node.id {
            Some(id) => *id == *value,
            None => false,
        }
    } else {
        match find_attribute(&node.attributes, key) {
            Some(j) => match &node.attributes[j].1 {
                Some(v) => *v == *value,
                None => {
                    let r = value.as_str().is_empty();
                    assert(r == (value@ =~= Seq::<char>::empty()));
                    r
                },
            },
            None => false,
        }
    }
}

/// Whether the node passes the attribute filter, before any negation.
pub fn fulfill_attribute_filter(node: &NodeView, attributes: &AttributeFilter) -> (r: bool)
    ensures
        r == attribute_holds(*attributes, node@),
{
    let all = attributes.filter_type == FilterType::And;
    let mut i: usize = 0;
    while i < attributes.filter.len()
        invariant
            i <= attributes.filter.len(),
            all == (attributes.filter_type == FilterType::And),
            forall|j: int|
                0 <= j < i ==> #[trigger] pair_holds(node@, attributes.filter@[j].0@, attributes.filter@[j].1@) == all,
        decreases attributes.filter.len() - i,
    {
        let found = pair_matches(node, &attributes.filter[i].0, &attributes.filter[i].1);
        if found != all {
            assert(pair_holds(node@, attributes.filter@[i as int].0@, attributes.filter@[i as int].1@) == found);
            return found;
        }
        i += 1;
    }
    all
}

/// Whether the node's text passes the text filter, before any negation.
pub fn filter_by_text(node: &NodeView, text_filters: &TextFilter) -> (r: bool)
    ensures
        r == text_holds(*text_filters, node@),
{
    let all = text_filters.filter_type == FilterType::And;
    let mut i: usize = 0;
    while i < text_filters.filter.len()
        invariant
            i <= text_filters.filter.len(),
            all == (text_filters.filter_type == FilterType::And),
            forall|j: int| 0 <= j < i ==> is_infix(#[trigger] text_filters.filter@[j]@, node@.text) == all,
        decreases text_filters.filter.len() - i,
    {
        let found = str_contains(node.text.as_str(), text_filters.filter[i].as_str());
        assert(str_seq(text_filters.filter@)[i as int] == text_filters.filter@[i as int]@);
        if found != all {
            assert(is_infix(text_filters.filter@[i as int]@, node@.text) == found);
            return found;
        }
        i += 1;
    }
    all
}

/// Whether the selection accepts the node; the filters are tried in the
/// order tag, id, class, attributes to keep, attributes to drop, text to
/// keep, text to drop, and the first that fails decides.
pub fn is_selected(node: &NodeView, options: &ScrapeOptions) -> (r: bool)
    ensures
        r == selected(*options, node@),
{
    if !has_tagname(node, &options.tags) {
        return false;
    }
    if let Some(f) = &options.id_filter {
        if !has_id(node, f) {
            return false;
        }
    }
    if let Some(f) = &options.class_filter {
        if !has_class(node, f) {
            return false;
        }
    }
    if let Some(f) = &options.attributes_include {
        if !fulfill_attribute_filter(node, f) {
            return false;
        }
    }
    if let Some(f) = &options.attributes_exclude {
        if fulfill_attribute_filter(node, f) {
            return false;
        }
    }
    if let Some(f) = &options.text_include {
        if !filter_by_text(node, f) {
            return false;
        }
    }
    if let Some(f) = &options.text_exclude {
        if filter_by_text(node, f) {
            return false;
        }
    }
    true
}

/// Appends to `out` the accepted elements below `nodes`, in pre-order.
fn select_into(nodes: &Vec<DomNode>, options: &ScrapeOptions, out: &mut Vec<NodeView>)
    ensures
        views(final(out)@) == views(old(out)@) + select_forest(nodes@, *options),
    decreases nodes,
{
    let ghost start = views(out@);
    let mut i: usize = 0;
    while i < nodes.len()
        invariant
            i <= nodes.len(),
            views(out@) == start + select_forest(nodes@.take(i as int), *options),
        decreases nodes.len() - i,
    {
        let ghost before = views(out@);
        assert(nodes@.take(i + 1).drop_last() =~= nodes@.take(i as int));
        assert(nodes@.take(i + 1).last() == nodes@[i as int]);
        match &nodes[i] {
            DomNode::Element(e) => {
                if contains_string(&options.tags.filter, &e.name) {
                    let view = NodeView::from_element(e);
                    if is_selected(&view, options) {
                        out.push(view);
                        assert(views(out@) =~= before + seq![element_model(*e)]);
                    }
                }
                let ghost mid = views(out@);
                assert(mid == before + if selected(*options, element_model(*e)) {
                    seq![element_model(*e)]
                } else {
                    Seq::empty()
                }) by {
                    if !selected(*options, element_model(*e)) {
                        assert(mid =~= before + Seq::<NodeModel>::empty());
                    }
                }
                assert(decreases_to!(nodes => nodes@[i as int]));
                select_into(&e.children, options, out);
                assert(views(out@) =~= before + select_node(nodes@[i as int], *options));
            },
            _ => {
                assert(views(out@) =~= before + select_node(nodes@[i as int], *options));
            },
        }
        assert(views(out@) =~= start + select_forest(nodes@.take(i + 1), *options));
        i += 1;
    }
    assert(nodes@.take(i as int) =~= nodes@);
}

/// The accepted elements of a parsed document, in pre-order depth-first
/// document order.
pub fn select(document: &Vec<DomNode>, options: &ScrapeOptions) -> (r: Vec<NodeView>)
    ensures
        views(r@) == select_forest(document@, *options),
{
    let mut r: Vec<NodeView> = Vec::new();
    select_into(document, options, &mut r);
    assert(views(r@) =~= select_forest(document@, *options));
    r
}

/// The source markup of the accepted elements of a parsed document.
pub fn select_sources(document: &Vec<DomNode>, options: &ScrapeOptions) -> (r: Vec<String>)
    ensures
        str_seq(r@) == sources(select_forest(document@, *options)),
{
    let found = select(document, options);
    let mut r: Vec<String> = Vec::new();
    let mut i: usize = 0;
    while i < found.len()
        invariant
            i <= found.len(),
            views(found@) == select_forest(document@, *options),
            r@.len() == i,
            str_seq(r@) == sources(views(found@)).take(i as int),
        decreases found.len() - i,
    {
        r.push(found[i].source.clone());
        assert(sources(views(found@))[i as int] == found@[i as int].source@);
        assert(str_seq(r@) =~= sources(views(found@)).take(i + 1));
        i += 1;
    }
    assert(sources(views(found@)).take(i as int) =~= sources(views(found@)));
    r
}

/// Parses markup and returns the source markup of the elements the
/// selection accepts, in document order; a text that the parser rejects
/// gives its error and no list.
pub fn scrape(raw_html: &str, options: ScrapeOptions) -> (r: Result<Vec<String>, ParseError>)
    ensures
        r is Ok <==> parse_accepts(raw_html@),
        r matches Ok(v) ==> exists|doc: Seq<DomNode>|
            str_seq(v@) == sources(#[trigger] select_forest(doc, options)),
{
    match parse_document(raw_html) {
        Ok(document) => {
            let found = select_sources(&document, &options);
            Ok(found)
        },
        Err(e) => Err(e),
    }
}

/// With an empty tag set nothing in a document is selected, whatever the
/// other filters say.
pub proof fn lemma_empty_tags_select_nothing(document: Seq<DomNode>, options: ScrapeOptions)
    requires
        options.tags.filter@.len() == 0,
    ensures
        select_forest(document, options) == Seq::<NodeModel>::empty(),
    decreases document,
{
    if document.len() > 0 {
        lemma_empty_tags_select_nothing(document.drop_last(), options);
        lemma_empty_tags_node(document.last(), options);
    }
}

proof fn lemma_empty_tags_node(n: DomNode, options: ScrapeOptions)
    requires
        options.tags.filter@.len() == 0,
    ensures
        select_node(n, options) == Seq::<NodeModel>::empty(),
    decreases n,
{
    if let DomNode::Element(e) = n {
        lemma_empty_tags_select_nothing(e.children@, options);
        assert(!tag_holds(options.tags, element_model(e)));
        assert(select_node(n, options) =~= Seq::<NodeModel>::empty());
    }
}

/// An AND class filter accepts exactly the nodes whose classes contain every
/// class it names; an OR class filter those that have one of them.
pub proof fn lemma_class_filter_as_sets(f: ClassFilter, n: NodeModel)
    ensures
        f.filter_type == FilterType::And ==> (class_holds(f, n) <==> str_seq(f.filter@).to_set().subset_of(
            n.classes.to_set(),
        )),
        f.filter_type == FilterType::Or ==> (class_holds(f, n) <==> str_seq(f.filter@).to_set().intersect(
            n.classes.to_set(),
        ) != Set::<Seq<char>>::empty()),
{
    let names = str_seq(f.filter@);
    let both = names.to_set().intersect(n.classes.to_set());
    if f.filter_type == FilterType::And {
        if class_holds(f, n) {
            assert forall|x: Seq<char>| names.to_set().contains(x) implies n.classes.to_set().contains(x) by {
                let i = choose|i: int| 0 <= i < names.len() && names[i] == x;
                assert(f.filter@[i]@ == x);
            }
        }
        if names.to_set().subset_of(n.classes.to_set()) {
            assert forall|i: int| 0 <= i < f.filter@.len() implies n.classes.contains(#[trigger] f.filter@[i]@) by {
                assert(names[i] == f.filter@[i]@);
                assert(names.to_set().contains(names[i]));
            }
        }
    } else {
        if class_holds(f, n) {
            let i = choose|i: int| 0 <= i < f.filter@.len() && n.classes.contains(#[trigger] f.filter@[i]@);
            assert(names[i] == f.filter@[i]@);
            assert(names.to_set().contains(names[i]));
            assert(both.contains(names[i]));
        }
        if both != Set::<Seq<char>>::empty() {
            assert(!(both =~= Set::<Seq<char>>::empty()));
            let x = choose|x: Seq<char>| both.contains(x);
            let i = choose|i: int| 0 <= i < names.len() && names[i] == x;
            assert(n.classes.contains(f.filter@[i]@));
        }
    }
}

/// Excluding by an attribute filter accepts exactly the nodes that including
/// by the same filter, in the same mode, rejects.
pub proof fn lemma_exclude_negates_include(f: AttributeFilter, n: NodeModel)
    ensures
        attribute_gate(Some(f), true, n) == !attribute_gate(Some(f), false, n),
{
}

} // verus!
