//! A model of UTF-8 text: character widths, byte offsets and character
//! boundaries, with the lemmas that connect character positions to byte
//! positions, and small executable helpers built on them.
use vstd::prelude::*;
use vstd::utf8::{char_is_scalar, encode_utf8};

verus! {

/// The number of bytes that UTF-8 uses to encode `c`.
pub open spec fn utf8_width(c: char) -> nat {
    if (c as u32) < 0x80 {
        1
    } else if (c as u32) < 0x800 {
        2
    } else if (c as u32) < 0x10000 {
        3
    } else {
        4
    }
}

/// The number of bytes of the UTF-8 encoding of `s`.
pub open spec fn byte_len(s: Seq<char>) -> nat
    decreases s.len(),
{
    if s.len() == 0 {
        0
    } else {
        utf8_width(s[0]) + byte_len(s.drop_first())
    }
}

/// The byte offset at which character `k` of `s` starts (the end of `s` when `k == s.len()`).
pub open spec fn offset_of(s: Seq<char>, k: int) -> nat {
    byte_len(s.take(k))
}

/// How many whole characters of `s` lie within its first `b` bytes.
pub open spec fn chars_within(s: Seq<char>, b: int) -> nat
    decreases s.len(),
{
    if s.len() == 0 || b < utf8_width(s[0]) {
        0
    } else {
        1 + chars_within(s.drop_first(), b - utf8_width(s[0]))
    }
}

/// Byte offset `b` is a character boundary of `s`: the start of a character, or the end.
pub open spec fn is_boundary(s: Seq<char>, b: int) -> bool {
    0 <= b && offset_of(s, chars_within(s, b) as int) == b
}

/// The greatest character boundary of `s` that is at most `b`.
pub open spec fn floor_boundary(s: Seq<char>, b: int) -> nat {
    offset_of(s, chars_within(s, b) as int)
}

/// The least character boundary of `s` that lies beyond `b`, for `b` before the end of `s`.
pub open spec fn next_boundary(s: Seq<char>, b: int) -> nat {
    offset_of(s, (chars_within(s, b) + 1) as int)
}

/// UTF-8 widths are between one and four bytes.
pub proof fn lemma_width_range(c: char)
    ensures
        1 <= utf8_width(c) <= 4,
{
}

/// The encoding of a concatenation is as long as both encodings together.
pub proof fn lemma_byte_len_concat(a: Seq<char>, b: Seq<char>)
    ensures
        byte_len(a + b) == byte_len(a) + byte_len(b),
    decreases a.len(),
{
    if a.len() == 0 {
        assert(a + b =~= b);
    } else {
        assert((a + b).drop_first() =~= a.drop_first() + b);
        lemma_byte_len_concat(a.drop_first(), b);
    }
}

/// A part of a text takes no more bytes than the whole.
pub proof fn lemma_byte_len_subrange(s: Seq<char>, lo: int, hi: int)
    requires
        0 <= lo <= hi <= s.len(),
    ensures
        byte_len(s.subrange(lo, hi)) <= byte_len(s),
{
    lemma_byte_len_concat(s.take(lo), s.subrange(lo, hi));
    lemma_byte_len_concat(s.take(hi), s.skip(hi));
    assert(s.take(lo) + s.subrange(lo, hi) =~= s.take(hi));
    assert(s.take(hi) + s.skip(hi) =~= s);
}

/// Cutting characters out of a text never makes its encoding longer.
pub proof fn lemma_byte_len_cut(s: Seq<char>, i: int, k: int)
    requires
        0 <= i <= k <= s.len(),
    ensures
        byte_len(s.take(i) + s.skip(k)) <= byte_len(s),
{
    lemma_byte_len_concat(s.take(i), s.skip(k));
    lemma_byte_len_concat(s.take(i), s.subrange(i, k));
    lemma_byte_len_concat(s.take(k), s.skip(k));
    assert(s.take(i) + s.subrange(i, k) =~= s.take(k));
    assert(s.take(k) + s.skip(k) =~= s);
}

/// Inserting a character lengthens the encoding by the character's width.
pub proof fn lemma_byte_len_insert(s: Seq<char>, k: int, c: char)
    requires
        0 <= k <= s.len(),
    ensures
        byte_len(s.insert(k, c)) == byte_len(s) + utf8_width(c),
{
    lemma_byte_len_concat(s.take(k), seq![c]);
    lemma_byte_len_concat(s.take(k) + seq![c], s.skip(k));
    lemma_byte_len_concat(s.take(k), s.skip(k));
    lemma_byte_len_single(c);
    assert(s.insert(k, c) =~= s.take(k) + seq![c] + s.skip(k));
    assert(s =~= s.take(k) + s.skip(k));
}

/// The encoding of one character is as long as its width.
pub proof fn lemma_byte_len_single(c: char)
    ensures
        byte_len(seq![c]) == utf8_width(c),
{
    assert(seq![c].drop_first() =~= Seq::<char>::empty());
    assert(byte_len(Seq::<char>::empty()) == 0);
    assert(byte_len(seq![c]) == utf8_width(seq![c][0]) + byte_len(seq![c].drop_first()));
}

/// The offset of character `k + 1` is the offset of character `k` plus its width.
pub proof fn lemma_offset_step(s: Seq<char>, k: int)
    requires
        0 <= k < s.len(),
    ensures
        offset_of(s, k + 1) == offset_of(s, k) + utf8_width(s[k]),
{
    assert(s.take(k + 1) =~= s.take(k) + seq![s[k]]);
    lemma_byte_len_concat(s.take(k), seq![s[k]]);
    lemma_byte_len_single(s[k]);
}

/// The first character starts at byte zero, and the end of `s` is at its byte length.
pub proof fn lemma_offset_ends(s: Seq<char>)
    ensures
        offset_of(s, 0) == 0,
        offset_of(s, s.len() as int) == byte_len(s),
{
    assert(s.take(0) =~= Seq::<char>::empty());
    assert(s.take(s.len() as int) =~= s);
}

/// Offsets grow strictly with the character index.
pub proof fn lemma_offset_monotone(s: Seq<char>, j: int, k: int)
    requires
        0 <= j <= k <= s.len(),
    ensures
        offset_of(s, j) <= offset_of(s, k),
        j < k ==> offset_of(s, j) + 1 <= offset_of(s, k),
    decreases k - j,
{
    if j < k {
        lemma_offset_monotone(s, j, k - 1);
        lemma_offset_step(s, k - 1);
    }
}

/// What `chars_within` counts: the characters that end at or before byte `b`.
pub proof fn lemma_chars_within(s: Seq<char>, b: int)
    requires
        0 <= b,
    ensures
        chars_within(s, b) <= s.len(),
        offset_of(s, chars_within(s, b) as int) <= b,
        chars_within(s, b) < s.len() ==> b < offset_of(s, (chars_within(s, b) + 1) as int),
    decreases s.len(),
{
    if s.len() == 0 {
        lemma_offset_ends(s);
    } else if b < utf8_width(s[0]) {
        lemma_offset_ends(s);
        lemma_offset_step(s, 0);
    } else {
        let t = s.drop_first();
        let w = utf8_width(s[0]);
        lemma_chars_within(t, b - w);
        let k = chars_within(t, b - w) as int;
        assert(s.take(k + 1).drop_first() =~= t.take(k));
        if k < t.len() {
            assert(s.take(k + 2).drop_first() =~= t.take(k + 1));
        }
    }
}

/// Counting the characters within the offset of character `k` gives `k` back.
pub proof fn lemma_chars_within_offset(s: Seq<char>, k: int)
    requires
        0 <= k <= s.len(),
    ensures
        chars_within(s, offset_of(s, k) as int) == k,
        is_boundary(s, offset_of(s, k) as int),
{
    let b = offset_of(s, k) as int;
    lemma_chars_within(s, b);
    let m = chars_within(s, b) as int;
    if m < k {
        lemma_offset_monotone(s, m + 1, k);
    } else if m > k {
        lemma_offset_monotone(s, k, m);
    }
}

/// A byte offset inside character `k` (or at its start) counts `k` whole characters before it.
pub proof fn lemma_chars_within_between(s: Seq<char>, k: int, b: int)
    requires
        0 <= k < s.len(),
        offset_of(s, k) <= b < offset_of(s, k + 1),
    ensures
        chars_within(s, b) == k,
{
    lemma_chars_within(s, b);
    let m = chars_within(s, b) as int;
    if m < k {
        lemma_offset_monotone(s, m + 1, k);
    } else if m > k {
        lemma_offset_monotone(s, k + 1, m);
    }
}

/// A boundary lies within the encoding, and is the offset of the characters it counts.
pub proof fn lemma_boundary_facts(s: Seq<char>, b: int)
    requires
        is_boundary(s, b),
    ensures
        b <= byte_len(s),
        chars_within(s, b) <= s.len(),
        b == byte_len(s) <==> chars_within(s, b) == s.len(),
{
    lemma_chars_within(s, b);
    lemma_offset_monotone(s, chars_within(s, b) as int, s.len() as int);
    lemma_offset_ends(s);
}

/// The length of `vstd`'s UTF-8 encoding is the byte length modelled here.
pub proof fn lemma_encode_len(s: Seq<char>)
    ensures
        encode_utf8(s).len() == byte_len(s),
    decreases s.len(),
{
    if s.len() > 0 {
        char_is_scalar(s[0]);
        lemma_encode_len(s.drop_first());
    }
}

/// The number of bytes that UTF-8 uses to encode `c` (as `char::len_utf8`).
pub fn char_width(c: char) -> (w: usize)
    ensures
        w == utf8_width(c),
{
    let v = c as u32;
    if v < 0x80 {
        1
    } else if v < 0x800 {
        2
    } else if v < 0x10000 {
        3
    } else {
        4
    }
}

/// The byte length of `s`.
pub fn str_byte_len(s: &str) -> (n: usize)
    requires
        byte_len(s@) <= usize::MAX,
    ensures
        n == byte_len(s@),
{
    proof {
        lemma_encode_len(s@);
    }
    s.len()
}

/// The characters of `s`, in order.
pub fn chars_of(s: &str) -> (v: Vec<char>)
    ensures
        v@ == s@,
{
    let mut v: Vec<char> = Vec::new();
    for c in it: s.chars()
        invariant
            it.seq() == s@,
            v@ == it.seq().take(it.index() as int),
    {
        v.push(c);
    }
    v
}

/// The byte offset at which character `k` of `v` starts.
pub fn offset_in(v: &Vec<char>, k: usize) -> (b: usize)
    requires
        k <= v.len(),
        byte_len(v@) <= usize::MAX,
    ensures
        b == offset_of(v@, k as int),
{
    let mut i: usize = 0;
    let mut b: usize = 0;
    proof {
        lemma_offset_ends(v@);
    }
    while i < k
        invariant
            i <= k <= v.len(),
            byte_len(v@) <= usize::MAX,
            b == offset_of(v@, i as int),
        decreases k - i,
    {
        proof {
            lemma_offset_step(v@, i as int);
            lemma_offset_monotone(v@, i + 1, v.len() as int);
            lemma_offset_ends(v@);
        }
        b = b + char_width(v[i]);
        i = i + 1;
    }
    b
}

/// How many whole characters of `v` lie within its first `b` bytes.
pub fn char_index_at(v: &Vec<char>, b: usize) -> (k: usize)
    requires
        byte_len(v@) <= usize::MAX,
    ensures
        k == chars_within(v@, b as int),
        k <= v.len(),
{
    let mut k: usize = 0;
    let mut acc: usize = 0;
    proof {
        lemma_offset_ends(v@);
    }
    while k < v.len()
        invariant_except_break
            k <= v.len(),
            byte_len(v@) <= usize::MAX,
            acc == offset_of(v@, k as int),
            acc <= b,
        ensures
            k <= v.len(),
            acc == offset_of(v@, k as int),
            acc <= b,
            k < v.len() ==> b < offset_of(v@, k + 1),
        decreases v.len() - k,
    {
        proof {
            lemma_offset_step(v@, k as int);
            lemma_offset_monotone(v@, k + 1, v.len() as int);
            lemma_offset_ends(v@);
        }
        let w = char_width(v[k]);
        if acc + w > b {
            break;
        }
        acc = acc + w;
        k = k + 1;
    }
    proof {
        lemma_chars_within(v@, b as int);
        let m = chars_within(v@, b as int) as int;
        if m < k {
            lemma_offset_monotone(v@, m + 1, k as int);
        } else if m > k {
            lemma_offset_monotone(v@, k + 1, m);
        }
    }
    k
}

} // verus!
