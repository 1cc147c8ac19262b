//! Character and string helpers shared by the tokenizer and the path filters.

use vstd::prelude::*;

verus! {

/// Whether `c` is alphanumeric in the sense of `char::is_alphanumeric`
/// (the Unicode `Alphabetic` property or one of the numeric categories).
pub uninterp spec fn alphanumeric(c: char) -> bool;

/// Whether `c` is white space in the sense of `char::is_whitespace`
/// (the Unicode `White_Space` property).
pub uninterp spec fn whitespace(c: char) -> bool;

/// The lowercase equivalent of `s`, as `str::to_lowercase` computes it from
/// the Unicode `Lowercase` mapping.
pub uninterp spec fn lowercase_of(s: Seq<char>) -> Seq<char>;

/// `char::is_alphanumeric` depends on its argument alone; its result is named
/// by [`alphanumeric`].
pub assume_specification[ char::is_alphanumeric ](c: char) -> (b: bool)
    ensures
        b == alphanumeric(c),
;

/// `char::is_whitespace` depends on its argument alone; its result is named
/// by [`whitespace`].
pub assume_specification[ char::is_whitespace ](c: char) -> (b: bool)
    ensures
        b == whitespace(c),
;

/// `str::to_lowercase` returns a new string that depends on the characters of
/// its argument alone; its result is named by [`lowercase_of`].
pub assume_specification[ str::to_lowercase ](s: &str) -> (r: String)
    ensures
        r@ == lowercase_of(s@),
;

/// `String::push` appends the given character to the end of the string.
pub assume_specification[ String::push ](s: &mut String, c: char)
    ensures
        final(s)@ == old(s)@.push(c),
;

/// The view of an optional string.
pub open spec fn opt_view(o: Option<String>) -> Option<Seq<char>> {
    match o {
        Some(s) => Some(s@),
        None => None,
    }
}

/// The views of a list of strings, in order.
pub open spec fn strings_view(v: Seq<String>) -> Seq<Seq<char>> {
    Seq::new(v.len(), |i: int| v[i]@)
}

/// `sub` occurs in `target` starting at position `i`.
pub open spec fn occurs_at(target: Seq<char>, sub: Seq<char>, i: int) -> bool {
    &&& 0 <= i
    &&& i + sub.len() <= target.len()
    &&& target.subrange(i, i + sub.len()) == sub
}

/// `sub` occurs somewhere in `target`. The empty sequence occurs in every
/// sequence.
pub open spec fn contains(target: Seq<char>, sub: Seq<char>) -> bool {
    exists|i: int| occurs_at(target, sub, i)
}

/// The characters of `s`, in order.
pub fn to_chars(s: &str) -> (v: Vec<char>)
    ensures
        v@ == s@,
{
    let mut v: Vec<char> = Vec::new();
    for c in it: s.chars()
        invariant
            it.seq() == s@,
            v@ == it.seq().take(it.index() as int),
    {
        v.push(c);
    }
    v
}

/// The string made of the characters `v[from..to]`.
pub fn string_from_chars(v: &Vec<char>, from: usize, to: usize) -> (s: String)
    requires
        from <= to <= v.len(),
    ensures
        s@ == v@.subrange(from as int, to as int),
{
    let mut s = String::new();
    let mut i: usize = from;
    while i < to
        invariant
            from <= i <= to <= v.len(),
            s@ == v@.subrange(from as int, i as int),
        decreases to - i,
    {
        s.push(v[i]);
        assert(v@.subrange(from as int, i as int).push(v@[i as int]) =~= v@.subrange(
            from as int,
            i + 1,
        ));
        i = i + 1;
    }
    s
}

/// Whether `sub` occurs at position `i` of `target`.
fn chars_match_at(target: &Vec<char>, sub: &Vec<char>, i: usize) -> (b: bool)
    requires
        i + sub.len() <= target.len(),
    ensures
        b == occurs_at(target@, sub@, i as int),
{
    let mut j: usize = 0;
    while j < sub.len()
        invariant
            j <= sub.len(),
            i + sub.len() <= target.len(),
            forall|k: int| 0 <= k < j ==> target@[i + k] == sub@[k],
        decreases sub.len() - j,
    {
        if target[i + j] != sub[j] {
            assert(target@.subrange(i as int, i + sub.len())[j as int] == target@[i + j]);
            return false;
        }
        j = j + 1;
    }
    assert(target@.subrange(i as int, i + sub.len()) =~= sub@);
    true
}

/// Whether `sub` occurs in `target`, character by character.
pub fn chars_contain(target: &Vec<char>, sub: &Vec<char>) -> (b: bool)
    ensures
        b == contains(target@, sub@),
{
    if sub.len() > target.len() {
        return false;
    }
    let last: usize = target.len() - sub.len();
    let mut i: usize = 0;
    while i < last
        invariant
            last == target.len() - sub.len(),
            i <= last,
            forall|k: int| 0 <= k < i ==> !occurs_at(target@, sub@, k),
        decreases last - i,
    {
        if chars_match_at(target, sub, i) {
            return true;
        }
        i = i + 1;
    }
    chars_match_at(target, sub, last)
}

/// Whether `sub` occurs in `target`.
pub fn str_contains(target: &str, sub: &str) -> (b: bool)
    ensures
        b == contains(target@, sub@),
{
    let t = to_chars(target);
    let s = to_chars(sub);
    chars_contain(&t, &s)
}

/// Whether `a` and `b` hold the same characters.
pub fn chars_eq(a: &Vec<char>, b: &Vec<char>) -> (r: bool)
    ensures
        r == (a@ == b@),
{
    if a.len() != b.len() {
        return false;
    }
    let mut i: usize = 0;
    while i < a.len()
        invariant
            a.len() == b.len(),
            i <= a.len(),
            forall|k: int| 0 <= k < i ==> a@[k] == b@[k],
        decreases a.len() - i,
    {
        if a[i] != b[i] {
            return false;
        }
        i = i + 1;
    }
    assert(a@ =~= b@);
    true
}

/// Whether `a` and `b` are the same text.
pub fn str_eq(a: &str, b: &str) -> (r: bool)
    ensures
        r == (a@ == b@),
{
    let x = to_chars(a);
    let y = to_chars(b);
    chars_eq(&x, &y)
}

} // verus!
