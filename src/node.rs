//! The node view: an owned, structured projection of one element.

use vstd::prelude::*;
use vstd::string::*;
use crate::dom::{DomElement, DomNode};
use crate::text::{add_all_new, add_new, contains_string, dedup, join, join_strings, opt_str, str_seq};

verus! {

/// One element as the filters and the emitters see it.
#[derive(Debug)]
pub struct NodeView {
    /// The tag name.
    pub tag: String,
    /// The id, if the element has one.
    pub id: Option<String>,
    /// The classes, in document order, without repeats.
    pub classes: Vec<String>,
    /// The other attributes; `None` for one written without a value.
    pub attributes: Vec<(String, Option<String>)>,
    /// The text of the element's descendant text nodes, joined by spaces.
    pub text: String,
    /// The element's markup as it stands in the source.
    pub source: String,
}

/// The mathematical value of a [`NodeView`].
pub struct NodeModel {
    pub tag: Seq<char>,
    pub id: Option<Seq<char>>,
    pub classes: Seq<Seq<char>>,
    pub attributes: Seq<(Seq<char>, Option<Seq<char>>)>,
    pub text: Seq<char>,
    pub source: Seq<char>,
}

/// The character sequences of a list of attributes.
pub open spec fn attrs_view(v: Seq<(String, Option<String>)>) -> Seq<(Seq<char>, Option<Seq<char>>)> {
    v.map_values(|p: (String, Option<String>)| (p.0@, opt_str(p.1)))
}

impl View for NodeView {
    type V = NodeModel;

    open spec fn view(&self) -> NodeModel {
        NodeModel {
            tag: self.tag@,
            id: opt_str(self.id),
            classes: str_seq(self.classes@),
            attributes: attrs_view(self.attributes@),
            text: self.text@,
            source: self.source@,
        }
    }
}

/// The models of a sequence of node views.
pub open spec fn views(s: Seq<NodeView>) -> Seq<NodeModel> {
    s.map_values(|v: NodeView| v@)
}

/// The text nodes below `n`, in document order.
pub open spec fn node_texts(n: DomNode) -> Seq<Seq<char>>
    decreases n,
{
    match n {
        DomNode::Element(e) => forest_texts(e.children@),
        DomNode::Text(t) => seq![t@],
        DomNode::Comment(_) => Seq::empty(),
    }
}

/// The text nodes below the nodes of `s`, in document order.
pub open spec fn forest_texts(s: Seq<DomNode>) -> Seq<Seq<char>>
    decreases s,
{
    if s.len() == 0 {
        Seq::empty()
    } else {
        forest_texts(s.drop_last()) + node_texts(s.last())
    }
}

/// `a` comes strictly before `b` in the lexicographic order of characters.
pub open spec fn name_before(a: Seq<char>, b: Seq<char>) -> bool
    decreases a.len(),
{
    if a.len() == 0 {
        b.len() > 0
    } else if b.len() == 0 {
        false
    } else if a[0] != b[0] {
        (a[0] as u32) < (b[0] as u32)
    } else {
        name_before(a.drop_first(), b.drop_first())
    }
}

/// Where an attribute named `name` goes in `sorted`: after every entry
/// whose name does not come after it.
pub open spec fn insertion_point(sorted: Seq<(Seq<char>, Option<Seq<char>>)>, name: Seq<char>) -> int
    decreases sorted.len(),
{
    if sorted.len() == 0 {
        0
    } else if name_before(name, sorted.last().0) {
        insertion_point(sorted.drop_last(), name)
    } else {
        sorted.len() as int
    }
}

/// The attributes ordered by name, those of equal names in their given
/// order: each one inserted, in turn, after those that do not come after it.
pub open spec fn sort_by_name(attrs: Seq<(Seq<char>, Option<Seq<char>>)>) -> Seq<(Seq<char>, Option<Seq<char>>)>
    decreases attrs.len(),
{
    if attrs.len() == 0 {
        attrs
    } else {
        let sorted = sort_by_name(attrs.drop_last());
        sorted.insert(insertion_point(sorted, attrs.last().0), attrs.last())
    }
}

/// The view of an element; its attributes are ordered by name, so that the
/// view does not depend on the order in which the parser delivers them.
pub open spec fn element_model(e: DomElement) -> NodeModel {
    NodeModel {
        tag: e.name@,
        id: opt_str(e.id),
        classes: dedup(str_seq(e.classes@)),
        attributes: sort_by_name(attrs_view(e.attributes@)),
        text: join(forest_texts(e.children@), seq![' ']),
        source: e.source@,
    }
}

/// A copy of an optional string.
pub fn copy_opt(o: &Option<String>) -> (r: Option<String>)
    ensures
        opt_str(r) == opt_str(*o),
{
    match o {
        Some(s) => Some(s.clone()),
        None => None,
    }
}

/// Appends the text nodes below `nodes` to `out`.
fn collect_texts(nodes: &Vec<DomNode>, out: &mut Vec<String>)
    ensures
        str_seq(final(out)@) == str_seq(old(out)@) + forest_texts(nodes@),
    decreases nodes,
{
    let ghost start = str_seq(out@);
    let mut i: usize = 0;
    while i < nodes.len()
        invariant
            i <= nodes.len(),
            str_seq(out@) == start + forest_texts(nodes@.take(i as int)),
        decreases nodes.len() - i,
    {
        let ghost before = str_seq(out@);
        assert(nodes@.take(i + 1).drop_last() =~= nodes@.take(i as int));
        assert(nodes@.take(i + 1).last() == nodes@[i as int]);
        assert(forest_texts(nodes@.take(i + 1)) == forest_texts(nodes@.take(i as int)) + node_texts(
            nodes@[i as int],
        ));
        match &nodes[i] {
            DomNode::Element(e) => {
                assert(decreases_to!(nodes => nodes@[i as int]));
                collect_texts(&e.children, out);
            },
            DomNode::Text(t) => {
                out.push(t.clone());
                assert(str_seq(out@) =~= before + seq![t@]);
            },
            DomNode::Comment(_) => {
                assert(node_texts(nodes@[i as int]) =~= Seq::empty());
            },
        }
        assert(str_seq(out@) =~= start + forest_texts(nodes@.take(i + 1)));
        i += 1;
    }
    assert(nodes@.take(i as int) =~= nodes@);
}

/// The strings of `v` in order, without repeats.
fn dedup_strings(v: &Vec<String>) -> (r: Vec<String>)
    ensures
        str_seq(r@) == dedup(str_seq(v@)),
{
    let mut r: Vec<String> = Vec::new();
    let mut i: usize = 0;
    while i < v.len()
        invariant
            i <= v.len(),
            str_seq(r@) == add_all_new(Seq::empty(), str_seq(v@).take(i as int)),
        decreases v.len() - i,
    {
        assert(str_seq(v@).take(i + 1).drop_last() =~= str_seq(v@).take(i as int));
        assert(str_seq(v@).take(i + 1).last() == v@[i as int]@);
        let ghost before = str_seq(r@);
        if !contains_string(&r, &v[i]) {
            r.push(v[i].clone());
            assert(str_seq(r@) =~= before.push(v@[i as int]@));
        }
        assert(str_seq(r@) == add_new(before, v@[i as int]@));
        i += 1;
    }
    assert(str_seq(v@).take(i as int) =~= str_seq(v@));
    r
}

/// Whether `a` comes strictly before `b` in the lexicographic order of
/// characters.
pub fn is_name_before(a: &str, b: &str) -> (r: bool)
    ensures
        r == name_before(a@, b@),
{
    let la = a.unicode_len();
    let lb = b.unicode_len();
    let mut i: usize = 0;
    assert(a@.skip(0) =~= a@);
    assert(b@.skip(0) =~= b@);
    while i < la && i < lb
        invariant
            la == a@.len(),
            lb == b@.len(),
            i <= la,
            i <= lb,
            name_before(a@, b@) == name_before(a@.skip(i as int), b@.skip(i as int)),
        decreases la - i,
    {
        let ca = a.get_char(i);
        let cb = b.get_char(i);
        if ca != cb {
            return (ca as u32) < (cb as u32);
        }
        assert(a@.skip(i as int).drop_first() =~= a@.skip(i + 1));
        assert(b@.skip(i as int).drop_first() =~= b@.skip(i + 1));
        i += 1;
    }
    i == la && i < lb
}

/// A copy of the attributes, ordered by name.
pub fn sorted_attributes(v: &Vec<(String, Option<String>)>) -> (r: Vec<(String, Option<String>)>)
    ensures
        attrs_view(r@) == sort_by_name(attrs_view(v@)),
{
    let mut r: Vec<(String, Option<String>)> = Vec::new();
    let mut i: usize = 0;
    while i < v.len()
        invariant
            i <= v.len(),
            r@.len() == i,
            attrs_view(r@) == sort_by_name(attrs_view(v@).take(i as int)),
        decreases v.len() - i,
    {
        let k = v[i].0.clone();
        let val = copy_opt(&v[i].1);
        let ghost sorted = attrs_view(r@);
        let mut j: usize = r.len();
        assert(sorted.take(j as int) =~= sorted);
        while j > 0 && is_name_before(k.as_str(), r[j - 1].0.as_str())
            invariant
                j <= r@.len(),
                r@.len() == i,
                sorted == attrs_view(r@),
                insertion_point(sorted, k@) == insertion_point(sorted.take(j as int), k@),
            decreases j,
        {
            assert(sorted.take(j as int).drop_last() =~= sorted.take(j - 1));
            assert(sorted.take(j as int).last() == sorted[j - 1]);
            j -= 1;
        }
        proof {
            if j > 0 {
                assert(sorted.take(j as int).last() == sorted[j - 1]);
            }
            assert(insertion_point(sorted.take(j as int), k@) == j);
        }
        let ghost before = r@;
        r.insert(j, (k, val));
        proof {
            assert(attrs_view(v@).take(i + 1).drop_last() =~= attrs_view(v@).take(i as int));
            assert(attrs_view(v@).take(i + 1).last() == (k@, opt_str(val)));
            assert(attrs_view(r@) =~= sorted.insert(j as int, (k@, opt_str(val))));
        }
        i += 1;
    }
    assert(attrs_view(v@).take(i as int) =~= attrs_view(v@));
    r
}

impl NodeView {
    /// The view of an element of a parsed document.
    pub fn from_element(e: &DomElement) -> (r: NodeView)
        ensures
            r@ == element_model(*e),
    {
        let mut texts: Vec<String> = Vec::new();
        collect_texts(&e.children, &mut texts);
        assert(str_seq(texts@) =~= forest_texts(e.children@));
        proof {
            reveal_strlit(" ");
            assert(" "@ =~= seq![' ']);
        }
        NodeView {
            tag: e.name.clone(),
            id: copy_opt(&e.id),
            classes: dedup_strings(&e.classes),
            attributes: sorted_attributes(&e.attributes),
            text: join_strings(&texts, " "),
            source: e.source.clone(),
        }
    }
}

} // verus!
