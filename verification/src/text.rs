//! Character-level helpers shared by the note parser, the text buffer
//! and the codec: conversions between `String` and `Vec<char>`, trimming
//! and searching.

use vstd::prelude::*;

verus! {

use vstd::string::*;

/// Characters treated as blank when an imported line is trimmed.
pub open spec fn is_blank(c: char) -> bool {
    c == ' ' || c == '\t' || c == '\r' || c == '\n'
}

/// Index of the first non-blank character of `s` at or after `from`;
/// `s.len()` if all of them are blank.
pub open spec fn first_nonblank(s: Seq<char>, from: int) -> int
    decreases s.len() - from,
{
    if from < 0 || from >= s.len() {
        s.len() as int
    } else if is_blank(s[from]) {
        first_nonblank(s, from + 1)
    } else {
        from
    }
}

/// One past the last non-blank character of `s` strictly before `upto`;
/// `0` if all of them are blank.
pub open spec fn last_nonblank(s: Seq<char>, upto: int) -> int
    decreases upto,
{
    if upto <= 0 || upto > s.len() {
        0
    } else if is_blank(s[upto - 1]) {
        last_nonblank(s, upto - 1)
    } else {
        upto
    }
}

/// `s` with blank characters removed from both ends.
pub open spec fn trimmed(s: Seq<char>) -> Seq<char> {
    let a = first_nonblank(s, 0);
    let b = last_nonblank(s, s.len() as int);
    if a <= b {
        s.subrange(a, b)
    } else {
        Seq::empty()
    }
}

/// Index of the first occurrence of `c` in `s` at or after `from`;
/// `s.len()` if there is none.
pub open spec fn find_char(s: Seq<char>, c: char, from: int) -> int
    decreases s.len() - from,
{
    if from < 0 || from >= s.len() {
        s.len() as int
    } else if s[from] == c {
        from
    } else {
        find_char(s, c, from + 1)
    }
}

/// Trimming does nothing to a text whose first and last characters
/// are not blank.
pub proof fn lemma_trimmed_id(s: Seq<char>)
    requires
        s.len() > 0,
        !is_blank(s[0]),
        !is_blank(s[s.len() - 1]),
    ensures
        trimmed(s) == s,
{
    assert(first_nonblank(s, 0) == 0);
    assert(last_nonblank(s, s.len() as int) == s.len());
    assert(s.subrange(0, s.len() as int) =~= s);
}

pub fn is_blank_char(c: char) -> (r: bool)
    ensures
        r == is_blank(c),
{
    c == ' ' || c == '\t' || c == '\r' || c == '\n'
}

/// Relies on `String::push`: appends the given character to the end of
/// the string.
#[verifier::external_body]
pub(crate) fn push_char(s: &mut String, c: char)
    ensures
        final(s)@ == old(s)@.push(c),
{
    s.push(c);
}

/// The characters of `s`, in order, as a vector.
pub fn str_to_chars(s: &str) -> (r: Vec<char>)
    ensures
        r@ == s@,
{
    let n = s.unicode_len();
    let mut r: Vec<char> = Vec::new();
    let mut i: usize = 0;
    while i < n
        invariant
            i <= n,
            n == s@.len(),
            r@ == s@.subrange(0, i as int),
        decreases n - i,
    {
        let c = s.get_char(i);
        r.push(c);
        i = i + 1;
        proof {
            assert(r@ =~= s@.subrange(0, i as int));
        }
    }
    proof {
        assert(r@ =~= s@);
    }
    r
}

/// The characters of `v`, in order, as a string.
pub fn chars_to_string(v: &Vec<char>) -> (r: String)
    ensures
        r@ == v@,
{
    let mut r = String::new();
    let mut i: usize = 0;
    while i < v.len()
        invariant
            i <= v@.len(),
            r@ == v@.subrange(0, i as int),
        decreases v@.len() - i,
    {
        push_char(&mut r, v[i]);
        i = i + 1;
        proof {
            assert(r@ =~= v@.subrange(0, i as int));
        }
    }
    proof {
        assert(r@ =~= v@);
    }
    r
}

/// `v` with blank characters removed from both ends.
pub fn trim_chars(v: &Vec<char>) -> (r: Vec<char>)
    ensures
        r@ == trimmed(v@),
{
    let n = v.len();
    let mut a: usize = 0;
    while a < n && is_blank_char(v[a])
        invariant
            a <= n,
            n == v@.len(),
            first_nonblank(v@, 0) == first_nonblank(v@, a as int),
        decreases n - a,
    {
        a = a + 1;
    }
    assert(first_nonblank(v@, 0) == a as int);
    let mut b: usize = n;
    while b > 0 && is_blank_char(v[b - 1])
        invariant
            b <= n,
            n == v@.len(),
            last_nonblank(v@, n as int) == last_nonblank(v@, b as int),
        decreases b,
    {
        b = b - 1;
    }
    assert(last_nonblank(v@, n as int) == b as int);
    if a <= b {
        let r = vstd::slice::slice_to_vec(vstd::slice::slice_subrange(v.as_slice(), a, b));
        assert(r@ == trimmed(v@));
        r
    } else {
        let r: Vec<char> = Vec::new();
        assert(r@ =~= trimmed(v@));
        r
    }
}

/// Index of the first occurrence of `c` in `v`; `v.len()` if none.
pub fn find_char_in(v: &Vec<char>, c: char) -> (r: usize)
    ensures
        r as int == find_char(v@, c, 0),
        r <= v@.len(),
{
    let n = v.len();
    let mut i: usize = 0;
    while i < n && !(v[i] == c)
        invariant
            i <= n,
            n == v@.len(),
            find_char(v@, c, 0) == find_char(v@, c, i as int),
        decreases n - i,
    {
        i = i + 1;
    }
    assert(find_char(v@, c, 0) == i as int);
    i
}

/// The elements of `v` from `from` (inclusive) to `to` (exclusive).
pub fn subvec(v: &Vec<char>, from: usize, to: usize) -> (r: Vec<char>)
    requires
        from <= to <= v@.len(),
    ensures
        r@ == v@.subrange(from as int, to as int),
{
    vstd::slice::slice_to_vec(vstd::slice::slice_subrange(v.as_slice(), from, to))
}

} // verus!
