//! Character-buffer utilities.
//!
//! The engine scans and rewrites a source buffer as a sequence of Unicode
//! scalar values (`Vec<char>`), converting from `&str` on entry and back to
//! `String` on exit.

use vstd::prelude::*;

verus! {

/// Whether `c` has the Unicode `White_Space` property, exactly as
/// `char::is_whitespace` decides it.
pub uninterp spec fn whitespace_char(c: char) -> bool;

/// Relies on `char::is_whitespace`: true exactly for the Unicode
/// `White_Space` characters, a function of the character alone.
pub assume_specification[ char::is_whitespace ](c: char) -> (r: bool)
    ensures
        r == whitespace_char(c),
;

/// Whether `c` is alphanumeric in the Unicode sense, exactly as
/// `char::is_alphanumeric` decides it.
pub uninterp spec fn alphanumeric_char(c: char) -> bool;

/// Relies on `char::is_alphanumeric`: true exactly for the Unicode
/// `Alphabetic`, `Nd`, `Nl` and `No` characters, a function of the
/// character alone.
pub assume_specification[ char::is_alphanumeric ](c: char) -> (r: bool)
    ensures
        r == alphanumeric_char(c),
;

/// Whether `c` is alphabetic in the Unicode sense, exactly as
/// `char::is_alphabetic` decides it.
pub uninterp spec fn alphabetic_char(c: char) -> bool;

/// Relies on `char::is_alphabetic`: true exactly for the Unicode
/// `Alphabetic` characters, a function of the character alone.
pub assume_specification[ char::is_alphabetic ](c: char) -> (r: bool)
    ensures
        r == alphabetic_char(c),
;

/// An ASCII capital letter.
pub open spec fn ascii_upper_char(c: char) -> bool {
    'A' <= c && c <= 'Z'
}

pub fn is_ascii_upper(c: char) -> (r: bool)
    ensures
        r == ascii_upper_char(c),
{
    'A' <= c && c <= 'Z'
}

/// A character that may continue an identifier: alphanumeric or `_`.
pub open spec fn ident_char(c: char) -> bool {
    alphanumeric_char(c) || c == '_'
}

pub fn is_ident_char(c: char) -> (r: bool)
    ensures
        r == ident_char(c),
{
    c.is_alphanumeric() || c == '_'
}

/// A character that may appear in a word of the operator scanner:
/// alphanumeric, `_` or `$`.
pub open spec fn word_char(c: char) -> bool {
    alphanumeric_char(c) || c == '_' || c == '$'
}

pub fn is_word_char(c: char) -> (r: bool)
    ensures
        r == word_char(c),
{
    c.is_alphanumeric() || c == '_' || c == '$'
}

/// The characters of `s`, in order.
pub fn str_to_chars(s: &str) -> (v: Vec<char>)
    ensures
        v@ == s@,
{
    let n = s.unicode_len();
    let mut v: Vec<char> = Vec::new();
    let mut i: usize = 0;
    while i < n
        invariant
            n == s@.len(),
            i <= n,
            v@ == s@.subrange(0, i as int),
        decreases n - i,
    {
        let c = s.get_char(i);
        v.push(c);
        i = i + 1;
        proof {
            assert(v@ =~= s@.subrange(0, i as int));
        }
    }
    proof {
        assert(v@ =~= s@);
    }
    v
}

/// Relies on `String: FromIterator<char>`: collecting characters yields the
/// string made of exactly those characters.
#[verifier::external_body]
pub fn chars_to_string(v: &Vec<char>) -> (s: String)
    ensures
        s@ == v@,
{
    v.iter().collect()
}

/// The characters of `v` from `from` (inclusive) to `to` (exclusive), with
/// both bounds clamped into the buffer, and an empty result when they cross.
pub open spec fn spec_sub(s: Seq<char>, from: int, to: int) -> Seq<char> {
    let lo = if from <= s.len() { from } else { s.len() as int };
    let hi = if to <= s.len() { to } else { s.len() as int };
    if lo <= hi {
        s.subrange(lo, hi)
    } else {
        Seq::empty()
    }
}

pub fn sub_chars(v: &Vec<char>, from: usize, to: usize) -> (r: Vec<char>)
    ensures
        r@ == spec_sub(v@, from as int, to as int),
{
    let lo = if from <= v.len() { from } else { v.len() };
    let hi = if to <= v.len() { to } else { v.len() };
    let mut r: Vec<char> = Vec::new();
    if lo <= hi {
        let mut i = lo;
        while i < hi
            invariant
                lo <= i <= hi <= v@.len(),
                r@ == v@.subrange(lo as int, i as int),
            decreases hi - i,
        {
            r.push(v[i]);
            i = i + 1;
            proof {
                assert(r@ =~= v@.subrange(lo as int, i as int));
            }
        }
        proof {
            assert(r@ =~= spec_sub(v@, from as int, to as int));
        }
    } else {
        proof {
            assert(r@ =~= spec_sub(v@, from as int, to as int));
        }
    }
    r
}

/// The buffer with `[start, end)` replaced by `text`.
pub open spec fn splice_at(s: Seq<char>, start: int, end: int, text: Seq<char>) -> Seq<char> {
    spec_sub(s, 0, start) + text + spec_sub(s, end, s.len() as int)
}

/// Replace the characters in `[start, end)` with `text`.
pub fn splice_chars(v: &Vec<char>, start: usize, end: usize, text: &Vec<char>) -> (r: Vec<char>)
    ensures
        r@ == splice_at(v@, start as int, end as int, text@),
{
    let mut out = sub_chars(v, 0, start);
    push_chars(&mut out, text);
    let tail_part = sub_chars(v, end, v.len());
    push_chars(&mut out, &tail_part);
    out
}

/// Append every character of `src` to `dst`.
pub fn push_chars(dst: &mut Vec<char>, src: &Vec<char>)
    ensures
        final(dst)@ == old(dst)@ + src@,
{
    let mut i: usize = 0;
    while i < src.len()
        invariant
            i <= src@.len(),
            dst@ == old(dst)@ + src@.subrange(0, i as int),
        decreases src@.len() - i,
    {
        dst.push(src[i]);
        i = i + 1;
        proof {
            assert(dst@ =~= old(dst)@ + src@.subrange(0, i as int));
        }
    }
    proof {
        assert(dst@ =~= old(dst)@ + src@);
    }
}

/// Append every character of the literal `src` to `dst`.
pub fn push_str_chars(dst: &mut Vec<char>, src: &str)
    ensures
        final(dst)@ == old(dst)@ + src@,
{
    let n = src.unicode_len();
    let mut i: usize = 0;
    while i < n
        invariant
            n == src@.len(),
            i <= n,
            dst@ == old(dst)@ + src@.subrange(0, i as int),
        decreases n - i,
    {
        dst.push(src.get_char(i));
        i = i + 1;
        proof {
            assert(dst@ =~= old(dst)@ + src@.subrange(0, i as int));
        }
    }
    proof {
        assert(dst@ =~= old(dst)@ + src@);
    }
}

/// Whether the character sequences of `a` and `b` are equal.
pub fn chars_eq(a: &Vec<char>, b: &Vec<char>) -> (r: bool)
    ensures
        r == (a@ == b@),
{
    if a.len() != b.len() {
        proof {
            assert(a@ != b@);
        }
        return false;
    }
    let mut i: usize = 0;
    while i < a.len()
        invariant
            a@.len() == b@.len(),
            i <= a@.len(),
            forall|k: int| 0 <= k < i ==> a@[k] == b@[k],
        decreases a@.len() - i,
    {
        if a[i] != b[i] {
            return false;
        }
        i = i + 1;
    }
    proof {
        assert(a@ =~= b@);
    }
    true
}

} // verus!
