use vstd::prelude::*;
use vstd::string::StrSliceExecFns;

verus! {

/// The characters of a string slice, in order.
pub fn str_chars(s: &str) -> (out: Vec<char>)
    ensures
        out@ == s@,
{
    let n = s.unicode_len();
    let mut out: Vec<char> = Vec::new();
    let mut i: usize = 0;
    while i < n
        invariant
            n == s@.len(),
            i <= n,
            out@ == s@.subrange(0, i as int),
        decreases n - i,
    {
        out.push(s.get_char(i));
        proof {
            assert(out@ =~= s@.subrange(0, i + 1));
        }
        i += 1;
    }
    proof {
        assert(s@.subrange(0, n as int) =~= s@);
    }
    out
}

/// Whether `a` holds exactly the characters of `b`.
pub fn text_is(a: &[char], b: &str) -> (r: bool)
    ensures
        r == (a@ == b@),
{
    let bc = str_chars(b);
    if a.len() != bc.len() {
        return false;
    }
    let mut i: usize = 0;
    while i < a.len()
        invariant
            i <= a.len(),
            a@.len() == bc@.len(),
            bc@ == b@,
            forall|j: int| 0 <= j < i ==> a@[j] == bc@[j],
        decreases a.len() - i,
    {
        if a[i] != bc[i] {
            return false;
        }
        i += 1;
    }
    assert(a@ =~= b@);
    true
}

} // verus!


verus! {

/// White space as HTML and JavaScript read it between tokens.
pub open spec fn spec_is_space(c: char) -> bool {
    c == ' ' || c == '\t' || c == '\n' || c == '\r' || c == '\u{c}'
}

/// Whether `c` is white space between tokens.
pub fn is_space(c: char) -> (r: bool)
    ensures
        r == spec_is_space(c),
{
    c == ' ' || c == '\t' || c == '\n' || c == '\r' || c == '\u{c}'
}

/// Whether `c` is an ASCII letter.
pub open spec fn spec_is_ascii_alpha(c: char) -> bool {
    ('a' <= c && c <= 'z') || ('A' <= c && c <= 'Z')
}

/// Whether `c` is an ASCII letter.
pub fn is_ascii_alpha(c: char) -> (r: bool)
    ensures
        r == spec_is_ascii_alpha(c),
{
    ('a' <= c && c <= 'z') || ('A' <= c && c <= 'Z')
}

/// Whether `c` is an ASCII digit.
pub open spec fn spec_is_ascii_digit(c: char) -> bool {
    '0' <= c && c <= '9'
}

/// Whether `c` is an ASCII digit.
pub fn is_ascii_digit(c: char) -> (r: bool)
    ensures
        r == spec_is_ascii_digit(c),
{
    '0' <= c && c <= '9'
}

/// Whether `c` is an ASCII upper-case letter.
pub fn is_ascii_upper(c: char) -> (r: bool)
    ensures
        r == ('A' <= c && c <= 'Z'),
{
    'A' <= c && c <= 'Z'
}

/// The characters `src[start..end]`.
pub fn slice_chars(src: &[char], start: usize, end: usize) -> (out: Vec<char>)
    requires
        start <= end <= src@.len(),
    ensures
        out@ == src@.subrange(start as int, end as int),
{
    let mut out: Vec<char> = Vec::new();
    let mut i = start;
    while i < end
        invariant
            start <= i <= end <= src@.len(),
            out@ == src@.subrange(start as int, i as int),
        decreases end - i,
    {
        out.push(src[i]);
        i += 1;
        assert(out@ =~= src@.subrange(start as int, i as int));
    }
    out
}

/// Whether `src` spells `lit` from `pos` on.
pub open spec fn spec_at(src: Seq<char>, pos: int, lit: Seq<char>) -> bool {
    0 <= pos && pos + lit.len() <= src.len() && src.subrange(pos, pos + lit.len()) == lit
}

/// Whether `src` spells `lit` from `pos` on.
pub fn at(src: &[char], pos: usize, lit: &str) -> (r: bool)
    ensures
        r == spec_at(src@, pos as int, lit@),
{
    let w = str_chars(lit);
    if pos > src.len() || w.len() > src.len() - pos {
        return false;
    }
    let mut k: usize = 0;
    while k < w.len()
        invariant
            k <= w@.len(),
            w@ == lit@,
            pos <= src@.len(),
            w@.len() <= src@.len() - pos,
            src@.len() <= usize::MAX,
            forall|m: int| 0 <= m < k ==> src@[pos + m] == w@[m],
        decreases w.len() - k,
    {
        let p = pos + k;
        if src[p] != w[k] {
            assert(src@.subrange(pos as int, pos + lit@.len())[k as int] != lit@[k as int]);
            return false;
        }
        k += 1;
    }
    assert(src@.subrange(pos as int, pos + lit@.len()) =~= lit@);
    true
}

/// Whether all of `a` equals `b`.
pub fn chars_eq(a: &[char], b: &[char]) -> (r: bool)
    ensures
        r == (a@ == b@),
{
    if a.len() != b.len() {
        return false;
    }
    let mut i: usize = 0;
    while i < a.len()
        invariant
            i <= a@.len(),
            a@.len() == b@.len(),
            forall|j: int| 0 <= j < i ==> a@[j] == b@[j],
        decreases a.len() - i,
    {
        if a[i] != b[i] {
            return false;
        }
        i += 1;
    }
    assert(a@ =~= b@);
    true
}

/// Whether `a` starts with the characters of `lit`.
pub fn starts_with(a: &[char], lit: &str) -> (r: bool)
    ensures
        r == spec_at(a@, 0, lit@),
{
    at(a, 0, lit)
}

/// Whether every character of `a` is white space.
pub open spec fn spec_all_space(a: Seq<char>) -> bool {
    forall|i: int| 0 <= i < a.len() ==> spec_is_space(#[trigger] a[i])
}

/// Whether every character of `a` is white space.
pub fn all_space(a: &[char]) -> (r: bool)
    ensures
        r == spec_all_space(a@),
{
    let mut i: usize = 0;
    while i < a.len()
        invariant
            i <= a@.len(),
            forall|j: int| 0 <= j < i ==> spec_is_space(#[trigger] a@[j]),
        decreases a.len() - i,
    {
        if !is_space(a[i]) {
            return false;
        }
        i += 1;
    }
    true
}

/// Whether `c` occurs in `a`.
pub fn contains_char(a: &[char], c: char) -> (r: bool)
    ensures
        r == a@.contains(c),
{
    let mut i: usize = 0;
    while i < a.len()
        invariant
            i <= a@.len(),
            forall|j: int| 0 <= j < i ==> a@[j] != c,
        decreases a.len() - i,
    {
        if a[i] == c {
            assert(a@[i as int] == c);
            return true;
        }
        i += 1;
    }
    false
}

/// `a` followed by the characters of `lit`.
pub fn push_str(a: &mut Vec<char>, lit: &str)
    ensures
        final(a)@ == old(a)@ + lit@,
{
    let w = str_chars(lit);
    let mut i: usize = 0;
    let ghost start = a@;
    while i < w.len()
        invariant
            i <= w@.len(),
            w@ == lit@,
            a@ == start + w@.subrange(0, i as int),
        decreases w.len() - i,
    {
        a.push(w[i]);
        i += 1;
        assert(a@ =~= start + w@.subrange(0, i as int));
    }
    assert(w@.subrange(0, w@.len() as int) =~= w@);
}

/// `a` followed by the characters of `b`.
pub fn push_chars(a: &mut Vec<char>, b: &[char])
    ensures
        final(a)@ == old(a)@ + b@,
{
    let mut i: usize = 0;
    let ghost start = a@;
    while i < b.len()
        invariant
            i <= b@.len(),
            a@ == start + b@.subrange(0, i as int),
        decreases b.len() - i,
    {
        a.push(b[i]);
        i += 1;
        assert(a@ =~= start + b@.subrange(0, i as int));
    }
    assert(b@.subrange(0, b@.len() as int) =~= b@);
}

/// The characters of `lit` as a vector.
pub fn chars_of(lit: &str) -> (out: Vec<char>)
    ensures
        out@ == lit@,
{
    str_chars(lit)
}

/// A copy of `a`.
pub fn copy_chars(a: &[char]) -> (out: Vec<char>)
    ensures
        out@ == a@,
{
    let mut out: Vec<char> = Vec::new();
    push_chars(&mut out, a);
    assert(out@ =~= a@);
    out
}

} // verus!
