//! Reading values out of a tracker's bencoded announce reply.
//!
//! A value is found by searching the raw bytes for the first occurrence of
//! its key's bencoded form (`<length>:<key>`) and reading what follows it:
//! an integer `i<digits>e`, or a string `<length>:<bytes>`.
use crate::numbers::{
    decimal, digit_char, is_digit, lemma_decimal_digits, lemma_decimal_value,
    lemma_digit_char_value, parse_digits, parse_i64_spec, parse_usize_spec, signed_decimal,
    unsigned_body,
};
use crate::strings::string_from_utf8;
use vstd::prelude::*;
use vstd::utf8::{encode_utf8, valid_utf8};

verus! {

/// The bytes of ASCII text.
pub open spec fn ascii_bytes(s: Seq<char>) -> Seq<u8> {
    Seq::new(s.len(), |i: int| s[i] as u8)
}

/// The characters of a byte string, one per byte.
pub open spec fn byte_chars(b: Seq<u8>) -> Seq<char> {
    Seq::new(b.len(), |i: int| b[i] as char)
}

/// The bencoded form of a key: its byte length in decimal, a colon, its bytes.
pub open spec fn key_tag(key: Seq<char>) -> Seq<u8> {
    ascii_bytes(decimal(encode_utf8(key).len())) + seq![58u8] + encode_utf8(key)
}

/// The first position at or after `p` where `tag` occurs in `data`.
pub open spec fn find_from(data: Seq<u8>, tag: Seq<u8>, p: int) -> Option<int>
    decreases data.len() + 1 - p,
{
    if p < 0 || p + tag.len() > data.len() {
        None
    } else if data.subrange(p, p + tag.len()) == tag {
        Some(p)
    } else {
        find_from(data, tag, p + 1)
    }
}

/// The first position at or after `p` where byte `b` occurs in `data`.
pub open spec fn find_byte(data: Seq<u8>, b: u8, p: int) -> Option<int>
    decreases data.len() - p,
{
    if p < 0 || p >= data.len() {
        None
    } else if data[p] == b {
        Some(p)
    } else {
        find_byte(data, b, p + 1)
    }
}

/// The bytes that follow the first occurrence of the key's bencoded form.
pub open spec fn after_key(data: Seq<u8>, key: Seq<char>) -> Option<Seq<u8>> {
    match find_from(data, key_tag(key), 0) {
        None => None,
        Some(p) => Some(data.skip(p + key_tag(key).len())),
    }
}

/// The integer value of `key`: after the key, `i`, then text up to the first
/// `e`, read as `str::parse::<i64>` reads it.
pub open spec fn bencode_int_spec(data: Seq<u8>, key: Seq<char>) -> Option<i64> {
    match after_key(data, key) {
        None => None,
        Some(after) => if after.len() == 0 || after[0] != 105u8 {
            None
        } else {
            match find_byte(after, 101u8, 0) {
                None => None,
                Some(end) => parse_i64_spec(byte_chars(after.subrange(1, end))),
            }
        },
    }
}

/// The declared length of the string value of `key`, and where its bytes
/// start among the bytes after the key.
pub open spec fn bencode_string_header(data: Seq<u8>, key: Seq<char>) -> Option<(int, int)> {
    match after_key(data, key) {
        None => None,
        Some(after) => match find_byte(after, 58u8, 0) {
            None => None,
            Some(colon) => match parse_usize_spec(byte_chars(after.take(colon))) {
                None => None,
                Some(len) => Some((colon + 1, len as int)),
            },
        },
    }
}

/// Reading the string value of `key` does not overflow: the end of the
/// declared string is a representable index.
pub open spec fn bencode_string_in_range(data: Seq<u8>, key: Seq<char>) -> bool {
    match bencode_string_header(data, key) {
        None => true,
        Some((start, len)) => start + len <= usize::MAX,
    }
}

/// The bytes of the string value of `key`, when the reply holds all of them.
pub open spec fn bencode_string_bytes(data: Seq<u8>, key: Seq<char>) -> Option<Seq<u8>> {
    match bencode_string_header(data, key) {
        None => None,
        Some((start, len)) => {
            let after = after_key(data, key).unwrap();
            if start + len > after.len() {
                None
            } else {
                Some(after.subrange(start, start + len))
            }
        },
    }
}

proof fn lemma_find_from_bounds(data: Seq<u8>, tag: Seq<u8>, p: int)
    requires
        0 <= p,
    ensures
        find_from(data, tag, p) matches Some(q) ==> p <= q && q + tag.len() <= data.len(),
    decreases data.len() + 1 - p,
{
    if p + tag.len() <= data.len() && data.subrange(p, p + tag.len()) != tag {
        lemma_find_from_bounds(data, tag, p + 1);
    }
}

proof fn lemma_find_byte_bounds(data: Seq<u8>, b: u8, p: int)
    requires
        0 <= p,
    ensures
        find_byte(data, b, p) matches Some(q) ==> p <= q < data.len() && data[q] == b,
    decreases data.len() - p,
{
    if p < data.len() && data[p] != b {
        lemma_find_byte_bounds(data, b, p + 1);
    }
}

/// Appends the decimal digits of `n` as ASCII bytes.
fn push_decimal_bytes(v: &mut Vec<u8>, n: u64)
    ensures
        final(v)@ == old(v)@ + ascii_bytes(decimal(n as nat)),
    decreases n,
{
    if n >= 10 {
        push_decimal_bytes(v, n / 10);
    }
    let d = (n % 10) as u8;
    v.push(48u8 + d);
    proof {
        let x = if n < 10 {
            Seq::<char>::empty()
        } else {
            decimal((n / 10) as nat)
        };
        assert(decimal(n as nat) =~= x.push(digit_char((n % 10) as nat)));
        assert((digit_char((n % 10) as nat) as u8) == 48u8 + d);
        assert(ascii_bytes(x.push(digit_char((n % 10) as nat))) =~= ascii_bytes(x).push((48u8 + d) as u8));
        assert(ascii_bytes(Seq::<char>::empty()) =~= Seq::<u8>::empty());
    }
}

/// The bencoded form of `key`.
fn make_key_tag(key: &str) -> (tag: Vec<u8>)
    ensures
        tag@ == key_tag(key@),
        tag@.len() > 0,
{
    let bytes = key.as_bytes();
    let mut tag: Vec<u8> = Vec::new();
    push_decimal_bytes(&mut tag, bytes.len() as u64);
    tag.push(58u8);
    let mut i: usize = 0;
    let ghost head = tag@;
    while i < bytes.len()
        invariant
            i <= bytes@.len(),
            bytes@ == encode_utf8(key@),
            tag@ == head + bytes@.take(i as int),
        decreases bytes.len() - i,
    {
        tag.push(bytes[i]);
        i = i + 1;
        assert(tag@ =~= head + bytes@.take(i as int));
    }
    assert(bytes@.take(bytes@.len() as int) =~= bytes@);
    assert(tag@ =~= key_tag(key@));
    tag
}

/// The first position where `tag` occurs in `data`.
fn find_tag(data: &[u8], tag: &Vec<u8>) -> (r: Option<usize>)
    requires
        tag@.len() > 0,
    ensures
        r == (match find_from(data@, tag@, 0) {
            Some(p) => Some(p as usize),
            None => None::<usize>,
        }),
        r matches Some(p) ==> p + tag@.len() <= data@.len(),
{
    let dlen = data.len();
    if tag.len() > dlen {
        return None;
    }
    let last = data.len() - tag.len();
    let mut p: usize = 0;
    while p <= last
        invariant
            0 < tag@.len() <= data@.len(),
            dlen == data@.len(),
            last == data@.len() - tag@.len(),
            p <= last + 1,
            find_from(data@, tag@, p as int) == find_from(data@, tag@, 0),
        decreases last + 1 - p,
    {
        let mut j: usize = 0;
        let mut same = true;
        assert(data@.subrange(p as int, p as int) =~= tag@.take(0));
        while j < tag.len()
            invariant
                p + tag@.len() <= data@.len(),
                dlen == data@.len(),
                j <= tag@.len(),
                same == (data@.subrange(p as int, p + j) == tag@.take(j as int)),
            decreases tag.len() - j,
        {
            if data[p + j] != tag[j] {
                proof {
                    if same {
                        assert(data@.subrange(p as int, p + j + 1)[j as int] != tag@.take((j + 1) as int)[j as int]);
                    }
                }
                same = false;
            } else {
                proof {
                    if same {
                        assert(data@.subrange(p as int, p + j + 1) =~= tag@.take((j + 1) as int));
                    }
                }
            }
            proof {
                if !same {
                    if data@.subrange(p as int, p + j + 1) == tag@.take((j + 1) as int) {
                        assert(data@.subrange(p as int, p + j) =~= tag@.take(j as int));
                    }
                }
            }
            j = j + 1;
        }
        assert(tag@.take(tag@.len() as int) =~= tag@);
        if same {
            return Some(p);
        }
        p = p + 1;
    }
    None
}

/// The first position at or after `from` where byte `b` occurs in `data`.
fn find_byte_from(data: &[u8], b: u8, from: usize) -> (r: Option<usize>)
    requires
        from <= data@.len(),
    ensures
        r == (match find_byte(data@, b, from as int) {
            Some(p) => Some(p as usize),
            None => None::<usize>,
        }),
{
    let mut p = from;
    while p < data.len()
        invariant
            from <= p <= data@.len(),
            find_byte(data@, b, p as int) == find_byte(data@, b, from as int),
        decreases data.len() - p,
    {
        if data[p] == b {
            return Some(p);
        }
        p = p + 1;
    }
    None
}

/// The characters of `data[lo..hi]`, one per byte.
fn chars_of_bytes(data: &[u8], lo: usize, hi: usize) -> (v: Vec<char>)
    requires
        lo <= hi <= data@.len(),
    ensures
        v@ == byte_chars(data@.subrange(lo as int, hi as int)),
{
    let mut v: Vec<char> = Vec::new();
    let mut i = lo;
    while i < hi
        invariant
            lo <= i <= hi <= data@.len(),
            v@ == byte_chars(data@.subrange(lo as int, i as int)),
        decreases hi - i,
    {
        v.push(data[i] as char);
        i = i + 1;
        assert(v@ =~= byte_chars(data@.subrange(lo as int, i as int)));
    }
    v
}

/// Reads `v` as `str::parse::<i64>` reads text.
pub fn parse_i64_chars(v: &Vec<char>) -> (r: Option<i64>)
    ensures
        r == parse_i64_spec(v@),
{
    let len = v.len();
    if len > 0 && v[0] == '-' {
        assert(v@.drop_first() =~= v@.subrange(1, len as int));
        let m = parse_digits(v, 1, len, 9223372036854775808u64);
        match m {
            None => None,
            Some(m) => {
                if m == 9223372036854775808u64 {
                    Some(i64::MIN)
                } else {
                    Some(-(m as i64))
                }
            },
        }
    } else {
        let start: usize = if len > 0 && v[0] == '+' {
            1
        } else {
            0
        };
        assert(unsigned_body(v@) =~= v@.subrange(start as int, len as int));
        let m = parse_digits(v, start, len, 9223372036854775807u64);
        match m {
            None => None,
            Some(m) => Some(m as i64),
        }
    }
}

/// Reads `v` as `str::parse::<usize>` reads text.
pub fn parse_usize_chars(v: &Vec<char>) -> (r: Option<usize>)
    ensures
        r == parse_usize_spec(v@),
{
    let len = v.len();
    let start: usize = if len > 0 && v[0] == '+' {
        1
    } else {
        0
    };
    assert(unsigned_body(v@) =~= v@.subrange(start as int, len as int));
    let m = parse_digits(v, start, len, usize::MAX as u64);
    match m {
        None => None,
        Some(m) => Some(m as usize),
    }
}

/// Where the bytes after the key's bencoded form start, if the key occurs.
fn find_after_key(data: &[u8], key: &str) -> (r: Option<usize>)
    ensures
        match after_key(data@, key@) {
            None => r is None,
            Some(after) => (r matches Some(a) && a <= data@.len() && after == data@.skip(a as int)),
        },
{
    let _dlen = data.len();
    let tag = make_key_tag(key);
    let pos = find_tag(data, &tag);
    proof {
        lemma_find_from_bounds(data@, tag@, 0);
    }
    match pos {
        None => None,
        Some(p) => Some(p + tag.len()),
    }
}

/// Extracts the bencoded integer value of `key` from a raw reply.
pub fn parse_bencode_int(data: &[u8], key: &str) -> (r: Option<i64>)
    ensures
        r == bencode_int_spec(data@, key@),
{
    let a = match find_after_key(data, key) {
        None => return None,
        Some(a) => a,
    };
    let ghost after = data@.skip(a as int);
    if a >= data.len() || data[a] != 105u8 {
        return None;
    }
    let e = find_byte_from(data, 101u8, a);
    proof {
        lemma_find_byte_bounds(data@, 101u8, a as int);
        lemma_find_byte_shift(data@, 101u8, a as int, 0);
    }
    match e {
        None => None,
        Some(e) => {
            let v = chars_of_bytes(data, a + 1, e);
            assert(after.subrange(1, e - a) =~= data@.subrange(a + 1, e as int));
            parse_i64_chars(&v)
        },
    }
}

/// Whether reading the string value of `key` stays within representable
/// indices (see `bencode_string_in_range`).
pub fn bencode_string_fits(data: &[u8], key: &str) -> (r: bool)
    ensures
        r == bencode_string_in_range(data@, key@),
{
    match string_header(data, key) {
        None => true,
        Some((start, len)) => len <= usize::MAX - start,
    }
}

/// Where the string value of `key` starts (among the bytes after the key)
/// and its declared length.
fn string_header(data: &[u8], key: &str) -> (r: Option<(usize, usize)>)
    ensures
        match bencode_string_header(data@, key@) {
            None => r is None,
            Some((start, len)) => (r matches Some((s, l)) && s == start && l == len),
        },
        r matches Some((s, l)) ==> (1 <= s && after_key(data@, key@) is Some && s <= after_key(data@, key@).unwrap().len()),
{
    let a = match find_after_key(data, key) {
        None => return None,
        Some(a) => a,
    };
    let ghost after = data@.skip(a as int);
    let _dlen = data.len();
    let c = find_byte_from(data, 58u8, a);
    proof {
        lemma_find_byte_bounds(data@, 58u8, a as int);
        lemma_find_byte_shift(data@, 58u8, a as int, 0);
    }
    match c {
        None => None,
        Some(c) => {
            let v = chars_of_bytes(data, a, c);
            assert(after.take(c - a) =~= data@.subrange(a as int, c as int));
            match parse_usize_chars(&v) {
                None => None,
                Some(len) => Some((c - a + 1, len)),
            }
        },
    }
}

/// Extracts the bencoded string value of `key` from a raw reply: `None` when
/// the key or a well-formed length is missing, the reply is too short, or
/// the bytes are not UTF-8.
pub fn parse_bencode_string(data: &[u8], key: &str) -> (r: Option<String>)
    requires
        bencode_string_in_range(data@, key@),
    ensures
        r is Some <==> (bencode_string_bytes(data@, key@) is Some && valid_utf8(
            bencode_string_bytes(data@, key@).unwrap(),
        )),
        r matches Some(s) ==> bencode_string_bytes(data@, key@) == Some(encode_utf8(s@)),
{
    let a = match find_after_key(data, key) {
        None => return None,
        Some(a) => a,
    };
    let (start, len) = match string_header(data, key) {
        None => return None,
        Some(h) => h,
    };
    let ghost after = data@.skip(a as int);
    let after_len = data.len() - a;
    if start + len > after_len {
        return None;
    }
    let mut bytes: Vec<u8> = Vec::new();
    let mut i = a + start;
    while i < a + start + len
        invariant
            a + start + len <= data@.len(),
            data@.len() <= usize::MAX,
            a + start <= i <= a + start + len,
            bytes@ == data@.subrange(a + start, i as int),
        decreases a + start + len - i,
    {
        bytes.push(data[i]);
        i = i + 1;
        assert(bytes@ =~= data@.subrange(a + start, i as int));
    }
    assert(after.subrange(start as int, start + len) =~= data@.subrange(a + start, a + start + len));
    string_from_utf8(bytes)
}

/// Searching from `p` in the bytes after `a` is searching from `a + p` in the whole.
proof fn lemma_find_byte_shift(data: Seq<u8>, b: u8, a: int, p: int)
    requires
        0 <= a <= data.len(),
        0 <= p,
    ensures
        find_byte(data.skip(a), b, p) == (match find_byte(data, b, a + p) {
            Some(q) => Some(q - a),
            None => None::<int>,
        }),
    decreases data.len() - a - p,
{
    if a + p < data.len() && data[a + p] != b {
        lemma_find_byte_shift(data, b, a, p + 1);
    }
}

/// The bencoded integer `n`: `i`, its decimal digits, `e`.
pub open spec fn int_field(n: i64) -> Seq<u8> {
    seq![105u8] + ascii_bytes(signed_decimal(n as int)) + seq![101u8]
}

/// The bencoded string `b`: its length in decimal, a colon, its bytes.
pub open spec fn string_field(b: Seq<u8>) -> Seq<u8> {
    ascii_bytes(decimal(b.len())) + seq![58u8] + b
}

/// Decimal digits are ASCII digit bytes, and read back as the same characters.
proof fn lemma_decimal_ascii(n: nat)
    ensures
        byte_chars(ascii_bytes(decimal(n))) == decimal(n),
        forall|i: int|
            0 <= i < decimal(n).len() ==> 48 <= #[trigger] ascii_bytes(decimal(n))[i] <= 57,
    decreases n,
{
    let d = n % 10;
    lemma_digit_char_value(d);
    let c = digit_char(d);
    assert((c as u8) as char == c);
    if n >= 10 {
        lemma_decimal_ascii(n / 10);
        let prev = decimal(n / 10);
        assert(decimal(n) == prev.push(c));
        assert(ascii_bytes(decimal(n)) =~= ascii_bytes(prev).push(c as u8));
        assert(byte_chars(ascii_bytes(decimal(n))) =~= byte_chars(ascii_bytes(prev)).push(
            (c as u8) as char,
        ));
    } else {
        assert(decimal(n) == seq![c]);
        assert(ascii_bytes(decimal(n)) =~= seq![c as u8]);
        assert(byte_chars(ascii_bytes(decimal(n))) =~= seq![(c as u8) as char]);
    }
}

/// The first occurrence of `b` from `p` on is at `q` when `q` holds `b` and
/// nothing between does.
proof fn lemma_find_byte_at(data: Seq<u8>, b: u8, p: int, q: int)
    requires
        0 <= p <= q < data.len(),
        data[q] == b,
        forall|i: int| p <= i < q ==> data[i] != b,
    ensures
        find_byte(data, b, p) == Some(q),
    decreases q - p,
{
    if p < q {
        lemma_find_byte_at(data, b, p + 1, q);
    }
}

/// A key's bencoded form at the start of a reply is found there.
proof fn lemma_after_key_at_start(key: Seq<char>, rest: Seq<u8>)
    ensures
        after_key(key_tag(key) + rest, key) == Some(rest),
{
    let tag = key_tag(key);
    let data = tag + rest;
    assert(data.subrange(0, tag.len() as int) =~= tag);
    assert(find_from(data, tag, 0) == Some(0int));
    assert(data.skip(tag.len() as int) =~= rest);
}

/// Reading back a written integer: in a reply that starts with `key`'s
/// bencoded form followed by the integer `n`, the value of `key` is `n`.
pub proof fn law_bencode_int_round_trip(key: Seq<char>, n: i64, rest: Seq<u8>)
    ensures
        bencode_int_spec(key_tag(key) + int_field(n) + rest, key) == Some(n),
{
    let data = key_tag(key) + int_field(n) + rest;
    assert(data =~= key_tag(key) + (int_field(n) + rest));
    lemma_after_key_at_start(key, int_field(n) + rest);
    let after = int_field(n) + rest;
    let text = signed_decimal(n as int);
    let neg = n < 0;
    let m: nat = if neg {
        (-(n as int)) as nat
    } else {
        n as nat
    };
    lemma_decimal_ascii(m);
    lemma_decimal_digits(m);
    lemma_decimal_value(m);
    let digits = ascii_bytes(text);
    let end: int = 1 + digits.len() as int;
    assert(after[0] == 105u8);
    assert(after[end] == 101u8);
    assert forall|i: int| 0 <= i < end implies after[i] != 101u8 by {
        if i > 0 {
            if neg && i == 1 {
                assert(after[i] == 45u8);
            } else {
                let k = if neg {
                    i - 2
                } else {
                    i - 1
                };
                assert(after[i] == ascii_bytes(decimal(m))[k]);
            }
        }
    }
    lemma_find_byte_at(after, 101u8, 0, end);
    let inner = byte_chars(after.subrange(1, end));
    assert(inner =~= text) by {
        assert forall|i: int| 0 <= i < text.len() implies inner[i] == text[i] by {
            if neg && i == 0 {
            } else {
                let k = if neg {
                    i - 1
                } else {
                    i
                };
                assert(byte_chars(ascii_bytes(decimal(m)))[k] == decimal(m)[k]);
            }
        }
    }
    if neg {
        assert(text.drop_first() =~= decimal(m));
    } else {
        assert(is_digit(text[0]));
        assert(unsigned_body(text) == text);
    }
}

/// Reading back a written string: in a reply that starts with `key`'s
/// bencoded form followed by the string `b`, the value of `key` is `b`.
pub proof fn law_bencode_string_round_trip(key: Seq<char>, b: Seq<u8>, rest: Seq<u8>)
    requires
        string_field(b).len() <= usize::MAX,
    ensures
        bencode_string_bytes(key_tag(key) + string_field(b) + rest, key) == Some(b),
        bencode_string_in_range(key_tag(key) + string_field(b) + rest, key),
{
    let data = key_tag(key) + string_field(b) + rest;
    assert(data =~= key_tag(key) + (string_field(b) + rest));
    lemma_after_key_at_start(key, string_field(b) + rest);
    let after = string_field(b) + rest;
    let len_text = decimal(b.len());
    lemma_decimal_ascii(b.len());
    lemma_decimal_digits(b.len());
    lemma_decimal_value(b.len());
    let colon = len_text.len() as int;
    assert(after[colon] == 58u8);
    assert forall|i: int| 0 <= i < colon implies after[i] != 58u8 by {
        assert(after[i] == ascii_bytes(len_text)[i]);
    }
    lemma_find_byte_at(after, 58u8, 0, colon);
    assert(byte_chars(after.take(colon)) =~= len_text) by {
        assert forall|i: int| 0 <= i < colon implies byte_chars(after.take(colon))[i] == len_text[i] by {
            assert(after[i] == ascii_bytes(len_text)[i]);
            assert(byte_chars(ascii_bytes(len_text))[i] == len_text[i]);
        }
    }
    assert(is_digit(len_text[0]));
    assert(unsigned_body(len_text) == len_text);
    assert(after.subrange(colon + 1, colon + 1 + b.len()) =~= b);
}

} // verus!
