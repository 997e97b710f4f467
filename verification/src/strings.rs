//! Editing `String`s by byte position, and the character classes that the
//! text rules of the client use (whitespace, alphanumerics, digits).
//!
//! The `string_*` functions below are thin wrappers over the standard
//! library's `String` methods, whose contracts restate the documented
//! behaviour over the character model of `crate::unicode`.
use crate::unicode::{byte_len, chars_of, chars_within, is_boundary};
use vstd::prelude::*;
use vstd::utf8::{encode_utf8, valid_utf8};

verus! {

/// `String::insert`: inserts `c` at byte position `idx`, which must be a
/// character boundary (the method panics otherwise). The contract states
/// the result as the insertion of `c` before the character that starts at `idx`.
#[verifier::external_body]
pub(crate) fn string_insert(s: &mut String, idx: usize, c: char)
    requires
        is_boundary(old(s)@, idx as int),
    ensures
        final(s)@ == old(s)@.insert(chars_within(old(s)@, idx as int) as int, c),
{
    s.insert(idx, c);
}

/// `String::remove`: removes and returns the character that starts at byte
/// position `idx`; the method panics unless `idx` is a boundary before the end.
#[verifier::external_body]
pub(crate) fn string_remove(s: &mut String, idx: usize) -> (r: char)
    requires
        is_boundary(old(s)@, idx as int),
        chars_within(old(s)@, idx as int) < old(s)@.len(),
    ensures
        r == old(s)@[chars_within(old(s)@, idx as int) as int],
        final(s)@ == old(s)@.remove(chars_within(old(s)@, idx as int) as int),
{
    s.remove(idx)
}

/// `String::drain` over the byte range `start..end`, with the drained part
/// dropped at once; the method panics unless both ends are boundaries in order.
#[verifier::external_body]
pub(crate) fn string_drain(s: &mut String, start: usize, end: usize)
    requires
        start <= end,
        is_boundary(old(s)@, start as int),
        is_boundary(old(s)@, end as int),
    ensures
        final(s)@ == old(s)@.take(chars_within(old(s)@, start as int) as int) + old(s)@.skip(
            chars_within(old(s)@, end as int) as int,
        ),
{
    s.drain(start..end);
}

/// `String::truncate`: keeps the first `new_len` bytes; no effect when
/// `new_len` is at least the length, and panics when it is not a boundary.
#[verifier::external_body]
pub(crate) fn string_truncate(s: &mut String, new_len: usize)
    requires
        new_len >= byte_len(old(s)@) || is_boundary(old(s)@, new_len as int),
    ensures
        final(s)@ == (if new_len >= byte_len(old(s)@) {
            old(s)@
        } else {
            old(s)@.take(chars_within(old(s)@, new_len as int) as int)
        }),
{
    s.truncate(new_len);
}

/// `String::clear`: empties the string.
#[verifier::external_body]
pub(crate) fn string_clear(s: &mut String)
    ensures
        final(s)@ == Seq::<char>::empty(),
{
    s.clear();
}

/// `String::push`: appends one character.
#[verifier::external_body]
pub(crate) fn string_push(s: &mut String, c: char)
    ensures
        final(s)@ == old(s)@.push(c),
{
    s.push(c);
}

/// `String::from_utf8`: succeeds exactly on valid UTF-8, and then the
/// string's encoding is the given bytes.
#[verifier::external_body]
pub(crate) fn string_from_utf8(bytes: Vec<u8>) -> (r: Option<String>)
    ensures
        r is Some <==> valid_utf8(bytes@),
        r matches Some(s) ==> encode_utf8(s@) == bytes@,
{
    String::from_utf8(bytes).ok()
}

/// What `char::is_alphanumeric` answers for `c` (Unicode's Alphabetic or Numeric).
pub uninterp spec fn unicode_alphanumeric(c: char) -> bool;

/// An ASCII letter or digit.
pub open spec fn ascii_alphanumeric(c: char) -> bool {
    ('a' <= c <= 'z') || ('A' <= c <= 'Z') || ('0' <= c <= '9')
}

/// `char::is_alphanumeric`. The contract names the Unicode answer and states
/// the documented ASCII case: among ASCII characters exactly the letters and
/// digits are alphanumeric. Beyond ASCII the answer rests on Unicode's tables,
/// which the contract does not spell out.
#[verifier::external_body]
pub(crate) fn is_alphanumeric(c: char) -> (r: bool)
    ensures
        r == unicode_alphanumeric(c),
        (c as u32) < 0x80 ==> (r <==> ascii_alphanumeric(c)),
{
    c.is_alphanumeric()
}

/// Unicode's `White_Space` property, which `str::trim` strips.
pub open spec fn is_white_space(c: char) -> bool {
    let v = c as u32;
    (0x09 <= v <= 0x0D) || v == 0x20 || v == 0x85 || v == 0xA0 || v == 0x1680 || (0x2000 <= v
        <= 0x200A) || v == 0x2028 || v == 0x2029 || v == 0x202F || v == 0x205F || v == 0x3000
}

/// Whether `c` has Unicode's `White_Space` property (as `char::is_whitespace`).
pub fn white_space(c: char) -> (r: bool)
    ensures
        r == is_white_space(c),
{
    let v = c as u32;
    (0x09 <= v && v <= 0x0D) || v == 0x20 || v == 0x85 || v == 0xA0 || v == 0x1680 || (0x2000 <= v
        && v <= 0x200A) || v == 0x2028 || v == 0x2029 || v == 0x202F || v == 0x205F || v == 0x3000
}

/// The number of leading characters of `s` from `lo` on that satisfy `p`, up to `hi`.
pub open spec fn skip_while_fwd(s: Seq<char>, lo: int, hi: int, p: spec_fn(char) -> bool) -> int
    decreases hi - lo,
{
    if lo < hi && p(s[lo]) {
        skip_while_fwd(s, lo + 1, hi, p)
    } else {
        lo
    }
}

/// Moving down from `hi` while the character before satisfies `p`, not below `lo`.
pub open spec fn skip_while_back(s: Seq<char>, lo: int, hi: int, p: spec_fn(char) -> bool) -> int
    decreases hi - lo,
{
    if lo < hi && p(s[hi - 1]) {
        skip_while_back(s, lo, hi - 1, p)
    } else {
        hi
    }
}

/// `s` with every leading and trailing character that satisfies `p` removed.
pub open spec fn trim_by(s: Seq<char>, p: spec_fn(char) -> bool) -> Seq<char> {
    let lo = skip_while_fwd(s, 0, s.len() as int, p);
    s.subrange(lo, skip_while_back(s, lo, s.len() as int, p))
}

/// `str::trim`: `s` without leading and trailing white space.
pub open spec fn trim_spec(s: Seq<char>) -> Seq<char> {
    trim_by(s, white_space_pred())
}

/// `is_white_space` as a predicate value.
pub open spec fn white_space_pred() -> spec_fn(char) -> bool {
    |c: char| is_white_space(c)
}

/// `str::trim_matches` with one character: `s` without leading and trailing `ch`.
pub open spec fn trim_char_spec(s: Seq<char>, ch: char) -> Seq<char> {
    trim_by(s, equal_pred(ch))
}

/// Equality with `ch` as a predicate value.
pub open spec fn equal_pred(ch: char) -> spec_fn(char) -> bool {
    |c: char| c == ch
}

/// Bounds of `skip_while_fwd`.
pub proof fn lemma_skip_fwd_bounds(s: Seq<char>, lo: int, hi: int, p: spec_fn(char) -> bool)
    requires
        lo <= hi,
    ensures
        lo <= skip_while_fwd(s, lo, hi, p) <= hi,
    decreases hi - lo,
{
    if lo < hi && p(s[lo]) {
        lemma_skip_fwd_bounds(s, lo + 1, hi, p);
    }
}

/// Bounds of `skip_while_back`.
pub proof fn lemma_skip_back_bounds(s: Seq<char>, lo: int, hi: int, p: spec_fn(char) -> bool)
    requires
        lo <= hi,
    ensures
        lo <= skip_while_back(s, lo, hi, p) <= hi,
    decreases hi - lo,
{
    if lo < hi && p(s[hi - 1]) {
        lemma_skip_back_bounds(s, lo, hi - 1, p);
    }
}

/// A `String` holding the characters `v[lo..hi]`.
pub fn string_of_range(v: &Vec<char>, lo: usize, hi: usize) -> (r: String)
    requires
        lo <= hi <= v.len(),
    ensures
        r@ == v@.subrange(lo as int, hi as int),
{
    let mut r = String::new();
    let mut i = lo;
    while i < hi
        invariant
            lo <= i <= hi <= v.len(),
            r@ == v@.subrange(lo as int, i as int),
        decreases hi - i,
    {
        string_push(&mut r, v[i]);
        i = i + 1;
        assert(r@ =~= v@.subrange(lo as int, i as int));
    }
    r
}

/// `str::trim`: `s` without leading and trailing white space.
pub fn trim(s: &str) -> (r: String)
    ensures
        r@ == trim_spec(s@),
{
    let v = chars_of(s);
    let ghost p = white_space_pred();
    let mut lo: usize = 0;
    while lo < v.len() && white_space(v[lo])
        invariant
            lo <= v.len(),
            v@ == s@,
            p == white_space_pred(),
            skip_while_fwd(v@, lo as int, v.len() as int, p) == skip_while_fwd(
                v@,
                0,
                v.len() as int,
                p,
            ),
        decreases v.len() - lo,
    {
        lo = lo + 1;
    }
    proof {
        if lo < v.len() {
            assert(!p(v@[lo as int]));
        }
    }
    let mut hi: usize = v.len();
    while hi > lo && white_space(v[hi - 1])
        invariant
            lo <= hi <= v.len(),
            v@ == s@,
            p == white_space_pred(),
            lo == skip_while_fwd(v@, 0, v.len() as int, p),
            skip_while_back(v@, lo as int, hi as int, p) == skip_while_back(
                v@,
                lo as int,
                v.len() as int,
                p,
            ),
        decreases hi - lo,
    {
        hi = hi - 1;
    }
    proof {
        if hi > lo {
            assert(!p(v@[hi - 1]));
        }
    }
    string_of_range(&v, lo, hi)
}

/// `str::trim_matches` with a single character `ch`.
pub fn trim_char(s: &str, ch: char) -> (r: String)
    ensures
        r@ == trim_char_spec(s@, ch),
{
    let v = chars_of(s);
    let ghost p = equal_pred(ch);
    let mut lo: usize = 0;
    while lo < v.len() && v[lo] == ch
        invariant
            lo <= v.len(),
            v@ == s@,
            p == equal_pred(ch),
            skip_while_fwd(v@, lo as int, v.len() as int, p) == skip_while_fwd(
                v@,
                0,
                v.len() as int,
                p,
            ),
        decreases v.len() - lo,
    {
        lo = lo + 1;
    }
    proof {
        if lo < v.len() {
            assert(!p(v@[lo as int]));
        }
    }
    let mut hi: usize = v.len();
    while hi > lo && v[hi - 1] == ch
        invariant
            lo <= hi <= v.len(),
            v@ == s@,
            p == equal_pred(ch),
            lo == skip_while_fwd(v@, 0, v.len() as int, p),
            skip_while_back(v@, lo as int, hi as int, p) == skip_while_back(
                v@,
                lo as int,
                v.len() as int,
                p,
            ),
        decreases hi - lo,
    {
        hi = hi - 1;
    }
    proof {
        if hi > lo {
            assert(!p(v@[hi - 1]));
        }
    }
    string_of_range(&v, lo, hi)
}

} // verus!
