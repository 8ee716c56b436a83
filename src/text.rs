//! Sequences of characters: the spec vocabulary shared by the filters and
//! the emitters, and the few string operations built on it.

use vstd::prelude::*;
use vstd::string::*;

verus! {

/// The character sequences of a sequence of strings.
pub open spec fn str_seq(v: Seq<String>) -> Seq<Seq<char>> {
    v.map_values(|s: String| s@)
}

/// The character sequence of an optional string.
pub open spec fn opt_str(o: Option<String>) -> Option<Seq<char>> {
    match o {
        Some(s) => Some(s@),
        None => None,
    }
}

/// `parts` with `sep` between each two neighbours.
pub open spec fn join(parts: Seq<Seq<char>>, sep: Seq<char>) -> Seq<char>
    decreases parts.len(),
{
    if parts.len() == 0 {
        Seq::empty()
    } else if parts.len() == 1 {
        parts[0]
    } else {
        join(parts.drop_last(), sep) + sep + parts.last()
    }
}

/// All parts one after the other.
pub open spec fn concat(parts: Seq<Seq<char>>) -> Seq<char>
    decreases parts.len(),
{
    if parts.len() == 0 {
        Seq::empty()
    } else {
        concat(parts.drop_last()) + parts.last()
    }
}

/// `acc` with `x` appended unless it already holds it.
pub open spec fn add_new(acc: Seq<Seq<char>>, x: Seq<char>) -> Seq<Seq<char>> {
    if acc.contains(x) {
        acc
    } else {
        acc.push(x)
    }
}

/// The elements of `s` appended in order to `acc`, each only where it is new.
pub open spec fn add_all_new(acc: Seq<Seq<char>>, s: Seq<Seq<char>>) -> Seq<Seq<char>>
    decreases s.len(),
{
    if s.len() == 0 {
        acc
    } else {
        add_new(add_all_new(acc, s.drop_last()), s.last())
    }
}

/// `s` in order, without the repeats of an earlier element.
pub open spec fn dedup(s: Seq<Seq<char>>) -> Seq<Seq<char>> {
    add_all_new(Seq::empty(), s)
}

/// `needle` occurs in `hay` as a run of consecutive characters.
pub open spec fn is_infix(needle: Seq<char>, hay: Seq<char>) -> bool {
    exists|i: int|
        0 <= i && i + needle.len() <= hay.len() && #[trigger] hay.subrange(i, i + needle.len())
            == needle
}

/// The code of `c`, with an ASCII capital letter taken as its small letter.
pub open spec fn ascii_folded(c: char) -> int {
    if 65 <= (c as u32) <= 90 {
        (c as u32) + 32
    } else {
        c as u32 as int
    }
}

/// `a` and `b` are equal but for the case of ASCII letters.
pub open spec fn same_ignoring_ascii_case(a: Seq<char>, b: Seq<char>) -> bool {
    a.len() == b.len() && forall|i: int| 0 <= i < a.len() ==> #[trigger] ascii_folded(a[i]) == ascii_folded(b[i])
}

/// `s` surrounded by double quotes.
pub open spec fn quoted(s: Seq<char>) -> Seq<char> {
    "\""@ + s + "\""@
}

/// `level` steps of two spaces.
pub open spec fn spaces(level: nat) -> Seq<char>
    decreases level,
{
    if level == 0 {
        Seq::empty()
    } else {
        spaces((level - 1) as nat) + "  "@
    }
}

/// In pretty mode a newline and `level` steps of indentation; else nothing.
pub open spec fn indent(pretty: bool, level: nat) -> Seq<char> {
    if pretty {
        "\n"@ + spaces(level)
    } else {
        Seq::empty()
    }
}

proof fn lemma_push_contains(a: Seq<Seq<char>>, y: Seq<char>, x: Seq<char>)
    ensures
        a.push(y).contains(x) <==> (a.contains(x) || x == y),
{
    if a.contains(x) {
        let j = choose|j: int| 0 <= j < a.len() && a[j] == x;
        assert(a.push(y)[j] == x);
    }
    if x == y {
        assert(a.push(y)[a.len() as int] == x);
    }
    if a.push(y).contains(x) {
        let j = choose|j: int| 0 <= j < a.push(y).len() && a.push(y)[j] == x;
        if j < a.len() {
            assert(a[j] == x);
        }
    }
}

/// What `add_all_new` holds is what `acc` and `s` hold together.
pub proof fn lemma_add_all_new_contains(acc: Seq<Seq<char>>, s: Seq<Seq<char>>, x: Seq<char>)
    ensures
        add_all_new(acc, s).contains(x) <==> (acc.contains(x) || s.contains(x)),
    decreases s.len(),
{
    if s.len() > 0 {
        lemma_add_all_new_contains(acc, s.drop_last(), x);
        lemma_push_contains(add_all_new(acc, s.drop_last()), s.last(), x);
        lemma_push_contains(s.drop_last(), s.last(), x);
        assert(s.drop_last().push(s.last()) =~= s);
    }
}

/// `add_all_new` keeps a sequence free of repeats.
pub proof fn lemma_add_all_new_distinct(acc: Seq<Seq<char>>, s: Seq<Seq<char>>)
    requires
        acc.no_duplicates(),
    ensures
        add_all_new(acc, s).no_duplicates(),
    decreases s.len(),
{
    if s.len() > 0 {
        lemma_add_all_new_distinct(acc, s.drop_last());
        let prev = add_all_new(acc, s.drop_last());
        if !prev.contains(s.last()) {
            let next = prev.push(s.last());
            assert forall|i: int, j: int|
                0 <= i < next.len() && 0 <= j < next.len() && i != j implies next[i] != next[j] by {
                if i < prev.len() && j < prev.len() {
                    assert(next[i] == prev[i] && next[j] == prev[j]);
                } else if i < prev.len() {
                    assert(next[i] == prev[i]);
                } else {
                    assert(next[j] == prev[j]);
                }
            }
        }
    }
}

/// Pushing a string pushes its characters.
pub proof fn lemma_str_seq_push(v: Seq<String>, s: String)
    ensures
        str_seq(v.push(s)) == str_seq(v).push(s@),
{
    assert(str_seq(v.push(s)) =~= str_seq(v).push(s@));
}

/// Extending a prefix of `x` by one, after a fixed head.
pub proof fn lemma_take_push<A>(head: Seq<A>, x: Seq<A>, i: int)
    requires
        0 <= i < x.len(),
    ensures
        (head + x.take(i)).push(x[i]) == head + x.take(i + 1),
{
    assert((head + x.take(i)).push(x[i]) =~= head + x.take(i + 1));
}

/// Whether `v` holds a string equal to `x`.
pub fn contains_string(v: &Vec<String>, x: &String) -> (r: bool)
    ensures
        r == str_seq(v@).contains(x@),
{
    let mut i: usize = 0;
    while i < v.len()
        invariant
            i <= v.len(),
            forall|j: int| 0 <= j < i ==> str_seq(v@)[j] != x@,
        decreases v.len() - i,
    {
        if v[i] == *x {
            assert(str_seq(v@)[i as int] == x@);
            return true;
        }
        i += 1;
    }
    false
}

/// Whether `s` equals the literal `name`.
pub fn is_named(s: &String, name: &str) -> (r: bool)
    ensures
        r == (s@ == name@),
{
    let n = String::from_str(name);
    *s == n
}

/// Whether `a` and `b` are equal but for the case of ASCII letters.
pub fn eq_ignoring_ascii_case(a: &str, b: &str) -> (r: bool)
    ensures
        r == same_ignoring_ascii_case(a@, b@),
{
    let n = a.unicode_len();
    if n != b.unicode_len() {
        return false;
    }
    let mut i: usize = 0;
    while i < n
        invariant
            i <= n,
            n == a@.len(),
            n == b@.len(),
            forall|j: int| 0 <= j < i ==> #[trigger] ascii_folded(a@[j]) == ascii_folded(b@[j]),
        decreases n - i,
    {
        let ca = a.get_char(i) as u32;
        let cb = b.get_char(i) as u32;
        let fa = if 65 <= ca && ca <= 90 { ca + 32 } else { ca };
        let fb = if 65 <= cb && cb <= 90 { cb + 32 } else { cb };
        if fa != fb {
            assert(ascii_folded(a@[i as int]) != ascii_folded(b@[i as int]));
            return false;
        }
        i += 1;
    }
    true
}

/// The strings of `parts` joined with `sep`.
pub fn join_strings(parts: &Vec<String>, sep: &str) -> (r: String)
    ensures
        r@ == join(str_seq(parts@), sep@),
{
    let mut r = String::new();
    let mut i: usize = 0;
    while i < parts.len()
        invariant
            i <= parts.len(),
            r@ == join(str_seq(parts@).take(i as int), sep@),
        decreases parts.len() - i,
    {
        if i > 0 {
            r.append(sep);
        }
        r.append(parts[i].as_str());
        assert(str_seq(parts@).take(i + 1).drop_last() =~= str_seq(parts@).take(i as int));
        i += 1;
    }
    assert(str_seq(parts@).take(i as int) =~= str_seq(parts@));
    r
}

/// `s` surrounded by double quotes.
pub fn quote(s: &str) -> (r: String)
    ensures
        r@ == quoted(s@),
{
    let mut r = String::from_str("\"");
    r.append(s);
    r.append("\"");
    r
}

/// The indentation for `level` in pretty mode; nothing otherwise.
pub fn indent_str(pretty: bool, level: usize) -> (r: String)
    ensures
        r@ == indent(pretty, level as nat),
{
    if !pretty {
        return String::new();
    }
    let mut r = String::from_str("\n");
    let mut i: usize = 0;
    while i < level
        invariant
            i <= level,
            r@ == "\n"@ + spaces(i as nat),
        decreases level - i,
    {
        r.append("  ");
        i += 1;
        assert(r@ =~= "\n"@ + spaces(i as nat));
    }
    r
}

/// Relies on `str::contains` with a `&str` pattern: true exactly when
/// `needle` occurs in `hay` as a run of consecutive characters.
#[verifier::external_body]
pub(crate) fn str_contains(hay: &str, needle: &str) -> (r: bool)
    ensures
        r == is_infix(needle@, hay@),
{
    hay.contains(needle)
}

/// What `char::is_alphanumeric` returns for `c`.
pub uninterp spec fn is_alphanumeric_char(c: char) -> bool;

/// Some character of `s` is alphanumeric.
pub open spec fn some_alphanumeric(s: Seq<char>) -> bool {
    exists|i: int| 0 <= i < s.len() && is_alphanumeric_char(#[trigger] s[i])
}

/// Relies on `char::is_alphanumeric`: whether `c` is alphanumeric.
#[verifier::external_body]
fn alphanumeric(c: char) -> (r: bool)
    ensures
        r == is_alphanumeric_char(c),
{
    c.is_alphanumeric()
}

/// Whether some character of `s` is alphanumeric.
pub fn has_alphanumeric(s: &str) -> (r: bool)
    ensures
        r == some_alphanumeric(s@),
{
    let n = s.unicode_len();
    let mut i: usize = 0;
    while i < n
        invariant
            i <= n,
            n == s@.len(),
            forall|j: int| 0 <= j < i ==> !is_alphanumeric_char(#[trigger] s@[j]),
        decreases n - i,
    {
        if alphanumeric(s.get_char(i)) {
            return true;
        }
        i += 1;
    }
    false
}

} // verus!
