//! Ratio boost: announcing made-up transfer totals to a tracker.
//!
//! This module holds the session's configuration, the announce URL (BEP 3)
//! with its percent-encoding, the random peer id and key, the reading of a
//! tracker's reply, and the session itself as a state machine: the caller
//! performs the HTTP requests and the one-second ticks, and hands the
//! outcomes back.
use crate::bencode::{int_field, key_tag, law_bencode_int_round_trip, bencode_int_spec, bencode_string_bytes, bencode_string_fits, bencode_string_in_range, parse_bencode_int, parse_bencode_string};
use crate::numbers::{decimal, digit_char, hex_digit, hex_fixed, hex_digit_char, is_digit, push_decimal, push_hex_fixed};
use crate::strings::string_push;
use crate::types::{ClientProfile, SpooferSnapshot, peer_id_prefix_of};
use crate::unicode::chars_of;
use vstd::prelude::*;
use vstd::utf8::{encode_utf8, valid_utf8};

verus! {

/// What a ratio-boost session announces and to whom.
#[derive(Debug, Clone, PartialEq)]
pub struct SpooferConfig {
    pub tracker_url: String,
    pub info_hash_hex: String,
    pub total_bytes: u64,
    pub upload_rate_bps: u64,
    pub download_rate_bps: u64,
    pub initial_uploaded: u64,
    pub initial_downloaded: u64,
    pub client: ClientProfile,
    pub port: u16,
}

/// The parameters of one announce.
pub struct AnnounceParams<'a> {
    pub peer_id: &'a str,
    pub key: &'a str,
    pub uploaded: u64,
    pub downloaded: u64,
    pub event: &'a str,
}

/// Why an announce URL cannot be built from a configuration.
#[derive(Debug, Clone, Copy, PartialEq, Eq, Structural)]
pub enum SpooferError {
    /// The info hash is not 40 bytes long (its length is given).
    InfoHashLength(usize),
    /// The info hash holds something other than hexadecimal digits.
    InvalidHex,
}

impl SpooferError {
    /// The error's message.
    pub fn message(&self) -> (r: String)
        ensures
            r@ == (match *self {
                SpooferError::InfoHashLength(n) => "info_hash_hex must be 40 chars, got "@ + decimal(
                    n as nat,
                ),
                SpooferError::InvalidHex => "invalid hex in info_hash"@,
            }),
    {
        let mut s = String::new();
        match self {
            SpooferError::InfoHashLength(n) => {
                s.append("info_hash_hex must be 40 chars, got ");
                push_decimal(&mut s, *n as u64);
            },
            SpooferError::InvalidHex => {
                s.append("invalid hex in info_hash");
            },
        }
        s
    }
}

/// The value of a hexadecimal digit byte (either case).
pub open spec fn hex_value(b: u8) -> Option<nat> {
    if 48 <= b <= 57 {
        Some((b - 48) as nat)
    } else if 97 <= b <= 102 {
        Some((b - 87) as nat)
    } else if 65 <= b <= 70 {
        Some((b - 55) as nat)
    } else {
        None
    }
}

/// The byte that two hex digits spell (most significant first); nothing
/// for any other pair of bytes.
pub open spec fn hex_pair(b0: u8, b1: u8) -> Option<nat> {
    if hex_value(b0) is Some && hex_value(b1) is Some {
        Some(hex_value(b0).unwrap() * 16 + hex_value(b1).unwrap())
    } else {
        None
    }
}

/// The first of the twenty byte pairs of a 40-byte info hash, from pair `i`
/// on, that does not spell a byte (twenty when all do).
pub open spec fn first_bad_pair(b: Seq<u8>, i: nat) -> nat
    decreases 20 - i,
{
    if i >= 20 {
        20
    } else if hex_pair(b[(2 * i) as int], b[(2 * i + 1) as int]) is None {
        i
    } else {
        first_bad_pair(b, i + 1)
    }
}

/// Whether an info hash's bytes decode as twenty hexadecimal pairs.
pub open spec fn info_hash_ok(b: Seq<u8>) -> bool {
    b.len() == 40 && first_bad_pair(b, 0) == 20
}

/// The percent-encoding of the twenty bytes that a valid hex info hash spells:
/// `%` and two upper-case hex digits per byte.
pub open spec fn percent_info_hash(b: Seq<u8>) -> Seq<char> {
    Seq::new(
        60,
        |j: int|
            {
                let v = hex_pair(b[2 * (j / 3)], b[2 * (j / 3) + 1]).unwrap();
                if j % 3 == 0 {
                    '%'
                } else if j % 3 == 1 {
                    hex_digit(v / 16)
                } else {
                    hex_digit(v % 16)
                }
            },
    )
}

/// From pair `i` on, every pair spells a byte exactly when every byte from
/// `2 * i` on is a hex digit.
proof fn lemma_first_bad_pair(b: Seq<u8>, i: nat)
    requires
        b.len() == 40,
        i <= 20,
    ensures
        (first_bad_pair(b, i) == 20) <==> (forall|k: int| 2 * i <= k < 40 ==> #[trigger] hex_value(b[k]) is Some),
    decreases 20 - i,
{
    if i < 20 {
        lemma_first_bad_pair(b, i + 1);
        if hex_pair(b[(2 * i) as int], b[(2 * i + 1) as int]) is None {
            if hex_value(b[(2 * i) as int]) is Some {
                assert(hex_value(b[(2 * i + 1) as int]) is None);
            }
        } else {
            assert forall|k: int| 2 * i <= k < 40 && (forall|m: int| 2 * (i + 1) <= m < 40 ==> #[trigger] hex_value(b[m]) is Some) implies #[trigger] hex_value(b[k]) is Some by {
                if k >= 2 * (i + 1) {
                    assert(hex_value(b[k]) is Some);
                }
            }
        }
    }
}

/// An info hash is accepted exactly when it is 40 bytes long and every byte
/// is a hex digit (of either case).
pub proof fn law_info_hash_ok_iff_hex(b: Seq<u8>)
    ensures
        info_hash_ok(b) <==> (b.len() == 40 && forall|k: int| 0 <= k < 40 ==> #[trigger] hex_value(b[k]) is Some),
{
    if b.len() == 40 {
        lemma_first_bad_pair(b, 0);
    }
}

/// The error that an info hash gives, if any.
pub open spec fn info_hash_error(b: Seq<u8>) -> Option<SpooferError> {
    if b.len() != 40 {
        Some(SpooferError::InfoHashLength(b.len() as usize))
    } else if first_bad_pair(b, 0) < 20 {
        Some(SpooferError::InvalidHex)
    } else {
        None
    }
}

/// A byte that percent-encoding leaves as it is (RFC 3986 unreserved).
pub open spec fn is_unreserved(b: u8) -> bool {
    (48 <= b <= 57) || (65 <= b <= 90) || (97 <= b <= 122) || b == 45 || b == 95 || b == 46 || b
        == 126
}

/// The percent-encoding of one byte.
pub open spec fn percent_byte(b: u8) -> Seq<char> {
    if is_unreserved(b) {
        seq![b as char]
    } else {
        seq!['%', hex_digit((b / 16) as nat), hex_digit((b % 16) as nat)]
    }
}

/// The percent-encoding of a byte string.
pub open spec fn percent_encoded(b: Seq<u8>) -> Seq<char>
    decreases b.len(),
{
    if b.len() == 0 {
        Seq::empty()
    } else {
        percent_encoded(b.drop_last()) + percent_byte(b.last())
    }
}

/// The announce URL that `build_announce_url` produces, given the already
/// encoded info hash and peer id and the number of bytes left.
pub open spec fn announce_url(
    tracker: Seq<char>,
    info_hash: Seq<char>,
    peer_id: Seq<char>,
    port: u16,
    uploaded: u64,
    downloaded: u64,
    left: u64,
    key: Seq<char>,
    event: Seq<char>,
) -> Seq<char> {
    let sep = if tracker.contains('?') {
        '&'
    } else {
        '?'
    };
    tracker.push(sep) + "info_hash="@ + info_hash + "&peer_id="@ + peer_id + "&port="@ + decimal(
        port as nat,
    ) + "&uploaded="@ + decimal(uploaded as nat) + "&downloaded="@ + decimal(downloaded as nat)
        + "&left="@ + decimal(left as nat) + "&compact=1&no_peer_id=1&key="@ + key + "&numwant=200"@
        + (if event.len() == 0 {
        Seq::<char>::empty()
    } else {
        "&event="@ + event
    })
}

/// Announces keep the tracker's own URL, query included: an announce URL
/// begins with the tracker URL, followed by `&` when the tracker URL
/// already has a query (such as a private tracker's passkey) and by `?`
/// otherwise.
pub proof fn law_announce_url_extends_tracker(
    tracker: Seq<char>,
    info_hash: Seq<char>,
    peer_id: Seq<char>,
    port: u16,
    uploaded: u64,
    downloaded: u64,
    left: u64,
    key: Seq<char>,
    event: Seq<char>,
)
    ensures
        ({
            let u = announce_url(tracker, info_hash, peer_id, port, uploaded, downloaded, left, key, event);
            &&& u.take(tracker.len() as int) == tracker
            &&& u[tracker.len() as int] == if tracker.contains('?') {
                '&'
            } else {
                '?'
            }
        }),
{
    let u = announce_url(tracker, info_hash, peer_id, port, uploaded, downloaded, left, key, event);
    let sep = if tracker.contains('?') {
        '&'
    } else {
        '?'
    };
    let rest = u.skip(tracker.len() as int + 1);
    assert(u =~= tracker.push(sep) + rest);
    assert(u.take(tracker.len() as int) =~= tracker);
}

/// The bytes still to download: the total less what was downloaded, never below zero.
pub open spec fn bytes_left(total: u64, downloaded: u64) -> u64 {
    if total > downloaded {
        (total - downloaded) as u64
    } else {
        0
    }
}

/// The value of a hexadecimal digit byte.
fn hex_value_of(b: u8) -> (r: Option<u8>)
    ensures
        r matches Some(v) ==> hex_value(b) == Some(v as nat),
        r is None ==> hex_value(b) is None,
{
    if 48 <= b && b <= 57 {
        Some(b - 48)
    } else if 97 <= b && b <= 102 {
        Some(b - 87)
    } else if 65 <= b && b <= 70 {
        Some(b - 55)
    } else {
        None
    }
}

/// The byte that two characters of an info hash spell.
fn hex_pair_of(b0: u8, b1: u8) -> (r: Option<u8>)
    ensures
        r matches Some(v) ==> hex_pair(b0, b1) == Some(v as nat),
        r is None ==> hex_pair(b0, b1) is None,
{
    match (hex_value_of(b0), hex_value_of(b1)) {
        (Some(h), Some(l)) => Some(h * 16 + l),
        _ => None,
    }
}

/// Percent-encodes the 20 bytes that a 40-character hex info hash spells.
pub fn percent_encode_hex(hex: &str) -> (r: Result<String, SpooferError>)
    ensures
        r matches Ok(s) ==> info_hash_ok(encode_utf8(hex@)) && s@ == percent_info_hash(
            encode_utf8(hex@),
        ),
        r matches Err(e) ==> info_hash_error(encode_utf8(hex@)) == Some(e),
        r is Ok <==> info_hash_ok(encode_utf8(hex@)),
{
    let bytes = hex.as_bytes();
    let ghost b = bytes@;
    let n = bytes.len();
    if n != 40 {
        return Err(SpooferError::InfoHashLength(n));
    }
    let mut out = String::new();
    let mut i: usize = 0;
    while i < 20
        invariant
            i <= 20,
            b == bytes@,
            b == encode_utf8(hex@),
            b.len() == 40,
            first_bad_pair(b, i as nat) == first_bad_pair(b, 0),
            out@ == percent_info_hash(b).take(3 * i),
        decreases 20 - i,
    {
        let v = match hex_pair_of(bytes[2 * i], bytes[2 * i + 1]) {
            None => {
                assert(hex_pair(b[(2 * i) as int], b[(2 * i + 1) as int]) is None);
                assert(first_bad_pair(b, i as nat) == i);
                return Err(SpooferError::InvalidHex);
            },
            Some(v) => v,
        };
        string_push(&mut out, '%');
        string_push(&mut out, hex_digit_char(v / 16));
        string_push(&mut out, hex_digit_char(v % 16));
        proof {
            assert((3 * i + 2) / 3 == i as int);
            assert((3 * i + 1) / 3 == i as int);
            assert((3 * i) / 3 == i as int);
            assert(out@ =~= percent_info_hash(b).take(3 * (i + 1)));
        }
        i = i + 1;
    }
    assert(out@ =~= percent_info_hash(b));
    assert(first_bad_pair(b, 20) == 20);
    Ok(out)
}

/// Percent-encodes bytes, leaving RFC 3986 unreserved characters as they are.
pub fn percent_encode_bytes(bytes: &[u8]) -> (r: String)
    ensures
        r@ == percent_encoded(bytes@),
{
    let mut out = String::new();
    let mut i: usize = 0;
    let n = bytes.len();
    assert(bytes@.take(0) =~= Seq::<u8>::empty());
    while i < n
        invariant
            i <= n == bytes@.len(),
            out@ == percent_encoded(bytes@.take(i as int)),
        decreases n - i,
    {
        let b = bytes[i];
        if (48 <= b && b <= 57) || (65 <= b && b <= 90) || (97 <= b && b <= 122) || b == 45 || b
            == 95 || b == 46 || b == 126 {
            string_push(&mut out, b as char);
        } else {
            string_push(&mut out, '%');
            string_push(&mut out, hex_digit_char(b / 16));
            string_push(&mut out, hex_digit_char(b % 16));
        }
        proof {
            assert(bytes@.take(i + 1).drop_last() =~= bytes@.take(i as int));
            assert(out@ =~= percent_encoded(bytes@.take(i + 1)));
        }
        i = i + 1;
    }
    assert(bytes@.take(n as int) =~= bytes@);
    out
}

/// Whether `s` holds the character `c`.
fn contains_char(s: &str, c: char) -> (r: bool)
    ensures
        r == s@.contains(c),
{
    let v = chars_of(s);
    let mut i: usize = 0;
    while i < v.len()
        invariant
            i <= v.len(),
            v@ == s@,
            forall|j: int| 0 <= j < i ==> v@[j] != c,
        decreases v.len() - i,
    {
        if v[i] == c {
            return true;
        }
        i = i + 1;
    }
    false
}

/// Builds a BEP 3 announce URL: the tracker URL, the percent-encoded info
/// hash and peer id, the port, the totals, the bytes left, the compact-reply
/// flags, the key and how many peers are wanted, then the event if there is one.
pub fn build_announce_url(config: &SpooferConfig, params: &AnnounceParams<'_>) -> (r: Result<
    String,
    SpooferError,
>)
    ensures
        r is Ok <==> info_hash_ok(encode_utf8(config.info_hash_hex@)),
        r matches Err(e) ==> info_hash_error(encode_utf8(config.info_hash_hex@)) == Some(e),
        r matches Ok(url) ==> url@ == announce_url(
            config.tracker_url@,
            percent_info_hash(encode_utf8(config.info_hash_hex@)),
            percent_encoded(encode_utf8(params.peer_id@)),
            config.port,
            params.uploaded,
            params.downloaded,
            bytes_left(config.total_bytes, params.downloaded),
            params.key@,
            params.event@,
        ),
{
    let info_hash = match percent_encode_hex(config.info_hash_hex.as_str()) {
        Ok(s) => s,
        Err(e) => {
            return Err(e);
        },
    };
    let peer_id_enc = percent_encode_bytes(params.peer_id.as_bytes());
    let left: u64 = if config.total_bytes > params.downloaded {
        config.total_bytes - params.downloaded
    } else {
        0
    };
    let sep = if contains_char(config.tracker_url.as_str(), '?') {
        '&'
    } else {
        '?'
    };
    let mut url = String::new();
    url.append(config.tracker_url.as_str());
    string_push(&mut url, sep);
    url.append("info_hash=");
    url.append(info_hash.as_str());
    url.append("&peer_id=");
    url.append(peer_id_enc.as_str());
    url.append("&port=");
    push_decimal(&mut url, config.port as u64);
    url.append("&uploaded=");
    push_decimal(&mut url, params.uploaded);
    url.append("&downloaded=");
    push_decimal(&mut url, params.downloaded);
    url.append("&left=");
    push_decimal(&mut url, left);
    url.append("&compact=1&no_peer_id=1&key=");
    url.append(params.key);
    url.append("&numwant=200");
    let ev = chars_of(params.event);
    if ev.len() > 0 {
        url.append("&event=");
        url.append(params.event);
    }
    proof {
        let tail = if params.event@.len() == 0 {
            Seq::<char>::empty()
        } else {
            "&event="@ + params.event@
        };
        assert(url@ =~= announce_url(
            config.tracker_url@,
            info_hash@,
            peer_id_enc@,
            config.port,
            params.uploaded,
            params.downloaded,
            left,
            params.key@,
            params.event@,
        ));
    }
    Ok(url)
}

/// `rand::random::<u8>()`: a random byte. Nothing is promised of its value.
#[verifier::external_body]
pub(crate) fn random_u8() -> u8 {
    rand::random::<u8>()
}

/// `rand::random::<u16>()`: a random `u16`. Nothing is promised of its value.
#[verifier::external_body]
pub(crate) fn random_u16() -> u16 {
    rand::random::<u16>()
}

/// `rand::random::<u32>()`: a random `u32`. Nothing is promised of its value.
#[verifier::external_body]
pub(crate) fn random_u32() -> u32 {
    rand::random::<u32>()
}

/// The peer id that `client` sends when its random bytes are `randoms`: the
/// client's prefix, then one decimal digit per random byte (the byte modulo 10).
pub open spec fn peer_id_text(client: ClientProfile, randoms: Seq<u8>) -> Seq<char> {
    peer_id_prefix_of(client) + Seq::new(randoms.len(), |i: int| digit_char((randoms[i] % 10) as nat))
}

/// The peer id for `client` built from the given random bytes.
pub fn peer_id_from(client: ClientProfile, randoms: &[u8]) -> (r: String)
    ensures
        r@ == peer_id_text(client, randoms@),
{
    let prefix = client.peer_id_prefix();
    let mut s = String::new();
    s.append(prefix);
    let n = randoms.len();
    let mut k: usize = 0;
    while k < n
        invariant
            k <= n == randoms@.len(),
            prefix@ == peer_id_prefix_of(client),
            s@ == prefix@ + Seq::new(k as nat, |i: int| digit_char((randoms@[i] % 10) as nat)),
        decreases n - k,
    {
        let d = randoms[k] % 10;
        string_push(&mut s, (48u8 + d) as char);
        k = k + 1;
        assert(s@ =~= prefix@ + Seq::new(k as nat, |i: int| digit_char((randoms@[i] % 10) as nat)));
    }
    s
}

/// A 20-character peer id: the client's prefix followed by random decimal digits.
pub fn generate_peer_id(client: ClientProfile) -> (r: String)
    ensures
        exists|randoms: Seq<u8>|
            randoms.len() + peer_id_prefix_of(client).len() == 20 && r@ == #[trigger] peer_id_text(
                client,
                randoms,
            ),
        r@.len() == 20,
        r@.take(peer_id_prefix_of(client).len() as int) == peer_id_prefix_of(client),
        forall|i: int| peer_id_prefix_of(client).len() <= i < 20 ==> is_digit(#[trigger] r@[i]),
{
    let prefix = client.peer_id_prefix();
    proof {
        reveal_strlit("-qB4600-");
        reveal_strlit("-UT3320-");
        reveal_strlit("-TR292-");
    }
    let plen = chars_of(prefix).len();
    let remaining: usize = if plen < 20 {
        20 - plen
    } else {
        0
    };
    let mut randoms: Vec<u8> = Vec::new();
    let mut k: usize = 0;
    while k < remaining
        invariant
            k <= remaining,
            randoms@.len() == k,
        decreases remaining - k,
    {
        randoms.push(random_u8());
        k = k + 1;
    }
    let r = peer_id_from(client, randoms.as_slice());
    proof {
        let p = peer_id_prefix_of(client);
        assert(r@.take(p.len() as int) =~= p);
        assert forall|i: int| p.len() <= i < 20 implies is_digit(#[trigger] r@[i]) by {
            let b = randoms@[i - p.len()];
            assert(r@[i] == digit_char((b % 10) as nat));
        }
    }
    r
}

/// The key text for `n`: eight upper-case hexadecimal digits (as `format!("{:08X}", n)`).
pub fn key_from(n: u32) -> (r: String)
    ensures
        r@ == hex_fixed(n as nat, 8),
{
    let mut s = String::new();
    push_hex_fixed(&mut s, n as u64, 8);
    assert(s@ =~= hex_fixed(n as nat, 8));
    s
}

/// A random key: eight upper-case hexadecimal digits.
pub fn generate_key() -> (r: String)
    ensures
        exists|n: u32| r@ == #[trigger] hex_fixed(n as nat, 8),
{
    let n = random_u32();
    key_from(n)
}

/// What a tracker's announce reply tells: the announce interval and the
/// numbers of seeders and leechers.
#[derive(Debug, Clone, Copy, PartialEq, Eq, Structural)]
pub struct AnnounceReply {
    pub interval_secs: u64,
    pub seeders: Option<i64>,
    pub leechers: Option<i64>,
}

/// The interval that a reply gives: its `interval` value, 1800 seconds when
/// absent, and never below zero.
pub open spec fn reply_interval(body: Seq<u8>) -> u64 {
    match bencode_int_spec(body, "interval"@) {
        None => 1800,
        Some(v) => if v < 0 {
            0
        } else {
            v as u64
        },
    }
}

/// Reads a tracker's announce reply: an error carrying the tracker's
/// `failure reason` when it gives one, and otherwise the interval and the
/// numbers of seeders (`complete`) and leechers (`incomplete`).
pub fn read_announce_reply(body: &[u8]) -> (r: Result<AnnounceReply, String>)
    requires
        bencode_string_in_range(body@, "failure reason"@),
    ensures
        r is Err <==> (bencode_string_bytes(body@, "failure reason"@) is Some && valid_utf8(
            bencode_string_bytes(body@, "failure reason"@).unwrap(),
        )),
        r matches Err(msg) ==> (exists|reason: Seq<char>|
            bencode_string_bytes(body@, "failure reason"@) == Some(encode_utf8(reason)) && msg@
                == "tracker: "@ + reason),
        r matches Ok(reply) ==> reply == (AnnounceReply {
            interval_secs: reply_interval(body@),
            seeders: bencode_int_spec(body@, "complete"@),
            leechers: bencode_int_spec(body@, "incomplete"@),
        }),
{
    if let Some(reason) = parse_bencode_string(body, "failure reason") {
        let mut msg = String::new();
        msg.append("tracker: ");
        msg.append(reason.as_str());
        return Err(msg);
    }
    let interval: u64 = match parse_bencode_int(body, "interval") {
        None => 1800,
        Some(v) => if v < 0 {
            0
        } else {
            v as u64
        },
    };
    let seeders = parse_bencode_int(body, "complete");
    let leechers = parse_bencode_int(body, "incomplete");
    Ok(AnnounceReply { interval_secs: interval, seeders, leechers })
}

/// Whether `read_announce_reply` can read `body` (see `bencode_string_in_range`).
pub fn announce_reply_readable(body: &[u8]) -> (r: bool)
    ensures
        r == bencode_string_in_range(body@, "failure reason"@),
{
    bencode_string_fits(body, "failure reason")
}

/// The live state of a ratio-boost session between announces.
#[derive(Debug, Clone, Copy, PartialEq, Eq, Structural)]
pub struct AnnounceSession {
    /// The uploaded total reported so far.
    pub uploaded: u64,
    /// The downloaded total reported so far.
    pub downloaded: u64,
    /// Whether the `completed` event was announced.
    pub completed_sent: bool,
    /// The interval, seeders and leechers that the first announce gave;
    /// they stand in for a failed later announce.
    pub interval_secs: u64,
    pub seeders: Option<i64>,
    pub leechers: Option<i64>,
    /// Seconds until the next regular announce.
    pub countdown: u64,
}

/// The announces that one tick calls for, in order.
#[derive(Debug, Clone, Copy, PartialEq, Eq, Structural)]
pub struct TickAnnounces {
    /// Announce the `completed` event (its reply is not used).
    pub completed: bool,
    /// Announce without an event, then hand the reply to `regular_announce_done`.
    pub regular: bool,
}

/// The session's state after one second, given the upload and download
/// increments for that second.
pub open spec fn tick_model(
    s: AnnounceSession,
    config: SpooferConfig,
    upload_delta: u64,
    download_delta: u64,
) -> (AnnounceSession, TickAnnounces) {
    let uploaded = if config.upload_rate_bps > 0 {
        sat_add(s.uploaded, upload_delta)
    } else {
        s.uploaded
    };
    let downloaded = if config.download_rate_bps > 0 && s.downloaded < config.total_bytes {
        min_u64(sat_add(s.downloaded, download_delta), config.total_bytes)
    } else {
        s.downloaded
    };
    let completed = !s.completed_sent && config.total_bytes > 0 && downloaded
        >= config.total_bytes;
    let countdown = if completed {
        s.interval_secs
    } else {
        s.countdown
    };
    let countdown = if countdown > 0 {
        (countdown - 1) as u64
    } else {
        0
    };
    (
        AnnounceSession {
            uploaded,
            downloaded,
            completed_sent: s.completed_sent || completed,
            countdown,
            ..s
        },
        TickAnnounces { completed, regular: countdown == 0 },
    )
}

/// Addition that stops at `u64::MAX`.
pub open spec fn sat_add(a: u64, b: u64) -> u64 {
    if a + b > u64::MAX {
        u64::MAX
    } else {
        (a + b) as u64
    }
}

/// The smaller of two numbers.
pub open spec fn min_u64(a: u64, b: u64) -> u64 {
    if a <= b {
        a
    } else {
        b
    }
}

impl AnnounceSession {
    /// A session after its `started` announce, given that announce's reply
    /// (`None` when it failed, which stands for a 1800-second interval and
    /// unknown peer counts).
    pub fn start(config: &SpooferConfig, started: Option<AnnounceReply>) -> (r: AnnounceSession)
        ensures
            r.uploaded == config.initial_uploaded,
            r.downloaded == config.initial_downloaded,
            !r.completed_sent,
            r.interval_secs == (match started {
                Some(a) => a.interval_secs,
                None => 1800,
            }),
            r.seeders == (match started {
                Some(a) => a.seeders,
                None => None,
            }),
            r.leechers == (match started {
                Some(a) => a.leechers,
                None => None,
            }),
            r.countdown == r.interval_secs,
            r == started_session(*config, started),
    {
        let reply = match started {
            Some(a) => a,
            None => AnnounceReply { interval_secs: 1800, seeders: None, leechers: None },
        };
        AnnounceSession {
            uploaded: config.initial_uploaded,
            downloaded: config.initial_downloaded,
            completed_sent: false,
            interval_secs: reply.interval_secs,
            seeders: reply.seeders,
            leechers: reply.leechers,
            countdown: reply.interval_secs,
        }
    }

    /// Advances the session by one second: adds the increments (uploads at
    /// a positive upload rate; downloads at a positive download rate until
    /// the total is reached), calls for the `completed` announce once the
    /// download is complete, and counts down to the next regular announce.
    pub fn tick(&mut self, config: &SpooferConfig, upload_delta: u64, download_delta: u64) -> (r:
        TickAnnounces)
        ensures
            (*final(self), r) == tick_model(*old(self), *config, upload_delta, download_delta),
    {
        if config.upload_rate_bps > 0 {
            self.uploaded = self.uploaded.saturating_add(upload_delta);
        }
        if config.download_rate_bps > 0 && self.downloaded < config.total_bytes {
            let d = self.downloaded.saturating_add(download_delta);
            self.downloaded = if d < config.total_bytes {
                d
            } else {
                config.total_bytes
            };
        }
        let mut completed = false;
        if !self.completed_sent && config.total_bytes > 0 && self.downloaded >= config.total_bytes {
            completed = true;
            self.completed_sent = true;
            self.countdown = self.interval_secs;
        }
        self.countdown = self.countdown.saturating_sub(1);
        TickAnnounces { completed, regular: self.countdown == 0 }
    }

    /// Takes the reply of a regular announce (`None` when it failed): the
    /// countdown restarts from the reply's interval, or from the first
    /// interval when the announce failed. Returns the interval and peer
    /// counts to show.
    pub fn regular_announce_done(&mut self, reply: Option<AnnounceReply>) -> (r: AnnounceReply)
        ensures
            r == (match reply {
                Some(a) => a,
                None => old(self).shown(),
            }),
            *final(self) == (AnnounceSession { countdown: r.interval_secs, ..*old(self) }),
            *final(self) == done_model(*old(self), reply),
    {
        let shown = match reply {
            Some(a) => a,
            None => self.current(),
        };
        self.countdown = shown.interval_secs;
        shown
    }

    /// The interval and peer counts from the first announce.
    pub open spec fn shown(self) -> AnnounceReply {
        AnnounceReply { interval_secs: self.interval_secs, seeders: self.seeders, leechers: self.leechers }
    }

    /// The interval and peer counts to show between announces (those of the first announce).
    pub fn current(&self) -> (r: AnnounceReply)
        ensures
            r == self.shown(),
    {
        AnnounceReply { interval_secs: self.interval_secs, seeders: self.seeders, leechers: self.leechers }
    }
}

/// One second of a session: the totals never go down, the download never
/// passes the torrent's size once within it, `completed` is announced only
/// for a complete download and never twice, and a regular announce is due
/// exactly when the countdown reaches zero; what the first announce gave
/// stays.
pub proof fn law_tick_step(s: AnnounceSession, config: SpooferConfig, up: u64, down: u64)
    ensures
        ({
            let (t, a) = tick_model(s, config, up, down);
            &&& t.uploaded >= s.uploaded
            &&& t.downloaded >= s.downloaded
            &&& (s.downloaded <= config.total_bytes ==> t.downloaded <= config.total_bytes)
            &&& (s.completed_sent ==> !a.completed)
            &&& (a.completed ==> config.total_bytes > 0 && t.downloaded >= config.total_bytes)
            &&& t.completed_sent == (s.completed_sent || a.completed)
            &&& (a.regular <==> t.countdown == 0)
            &&& t.shown() == s.shown()
        }),
{
}

/// The events that a session's announces carry: `started` first, then
/// `completed` once the download is complete, none for the regular
/// announces, and `stopped` last.
#[derive(Debug, Clone, Copy, PartialEq, Eq, Structural)]
pub enum AnnounceEvent {
    Started,
    Completed,
    Regular,
    Stopped,
}

/// The `event` parameter of an announce.
pub open spec fn event_text(e: AnnounceEvent) -> Seq<char> {
    match e {
        AnnounceEvent::Started => "started"@,
        AnnounceEvent::Completed => "completed"@,
        AnnounceEvent::Regular => ""@,
        AnnounceEvent::Stopped => "stopped"@,
    }
}

impl AnnounceEvent {
    /// The `event` parameter of an announce with this event.
    pub fn as_str(self) -> (r: &'static str)
        ensures
            r@ == event_text(self),
    {
        match self {
            AnnounceEvent::Started => "started",
            AnnounceEvent::Completed => "completed",
            AnnounceEvent::Regular => "",
            AnnounceEvent::Stopped => "stopped",
        }
    }
}

/// The session after its `started` announce, given that announce's reply.
pub open spec fn started_session(config: SpooferConfig, started: Option<AnnounceReply>) -> AnnounceSession {
    let reply = match started {
        Some(a) => a,
        None => AnnounceReply { interval_secs: 1800, seeders: None, leechers: None },
    };
    AnnounceSession {
        uploaded: config.initial_uploaded,
        downloaded: config.initial_downloaded,
        completed_sent: false,
        interval_secs: reply.interval_secs,
        seeders: reply.seeders,
        leechers: reply.leechers,
        countdown: reply.interval_secs,
    }
}

/// The session after a regular announce whose reply was `reply`.
pub open spec fn done_model(s: AnnounceSession, reply: Option<AnnounceReply>) -> AnnounceSession {
    AnnounceSession {
        countdown: match reply {
            Some(a) => a.interval_secs,
            None => s.interval_secs,
        },
        ..s
    }
}

/// One second of a running session: the tick with the given increments,
/// then, when a regular announce was due, its reply.
pub open spec fn step_model(
    s: AnnounceSession,
    config: SpooferConfig,
    step: (u64, u64, Option<AnnounceReply>),
) -> (AnnounceSession, TickAnnounces) {
    let (t, a) = tick_model(s, config, step.0, step.1);
    (
        if a.regular {
            done_model(t, step.2)
        } else {
            t
        },
        a,
    )
}

/// The events that one second's announces carry, in order.
pub open spec fn tick_events(a: TickAnnounces) -> Seq<AnnounceEvent> {
    (if a.completed {
        seq![AnnounceEvent::Completed]
    } else {
        Seq::empty()
    }) + (if a.regular {
        seq![AnnounceEvent::Regular]
    } else {
        Seq::empty()
    })
}

/// The session after a run of seconds.
pub open spec fn run_state(
    s: AnnounceSession,
    config: SpooferConfig,
    steps: Seq<(u64, u64, Option<AnnounceReply>)>,
) -> AnnounceSession
    decreases steps.len(),
{
    if steps.len() == 0 {
        s
    } else {
        run_state(step_model(s, config, steps[0]).0, config, steps.drop_first())
    }
}

/// The events that a run of seconds announces, in order.
pub open spec fn run_events(
    s: AnnounceSession,
    config: SpooferConfig,
    steps: Seq<(u64, u64, Option<AnnounceReply>)>,
) -> Seq<AnnounceEvent>
    decreases steps.len(),
{
    if steps.len() == 0 {
        Seq::empty()
    } else {
        let (t, a) = step_model(s, config, steps[0]);
        tick_events(a) + run_events(t, config, steps.drop_first())
    }
}

/// The events of a whole session: `started`, the run, `stopped`.
pub open spec fn session_events(
    config: SpooferConfig,
    started: Option<AnnounceReply>,
    steps: Seq<(u64, u64, Option<AnnounceReply>)>,
) -> Seq<AnnounceEvent> {
    seq![AnnounceEvent::Started] + run_events(started_session(config, started), config, steps)
        + seq![AnnounceEvent::Stopped]
}

/// How many `completed` events a sequence holds.
pub open spec fn count_completed(ev: Seq<AnnounceEvent>) -> nat
    decreases ev.len(),
{
    if ev.len() == 0 {
        0
    } else {
        count_completed(ev.drop_first()) + if ev[0] == AnnounceEvent::Completed {
            1nat
        } else {
            0nat
        }
    }
}

/// Counting `completed` events adds up over a concatenation.
proof fn lemma_count_concat(a: Seq<AnnounceEvent>, b: Seq<AnnounceEvent>)
    ensures
        count_completed(a + b) == count_completed(a) + count_completed(b),
    decreases a.len(),
{
    if a.len() > 0 {
        assert((a + b).drop_first() =~= a.drop_first() + b);
        lemma_count_concat(a.drop_first(), b);
    } else {
        assert(a + b =~= b);
    }
}

/// Over any run of a session, `completed` is announced at most once (and
/// not at all once it was), every announce of the run is `completed` or
/// regular, and a download that starts within the torrent's size stays
/// within it.
pub proof fn law_completed_at_most_once(
    s: AnnounceSession,
    config: SpooferConfig,
    steps: Seq<(u64, u64, Option<AnnounceReply>)>,
)
    ensures
        count_completed(run_events(s, config, steps)) <= if s.completed_sent {
            0nat
        } else {
            1nat
        },
        forall|i: int|
            0 <= i < run_events(s, config, steps).len() ==> (#[trigger] run_events(
                s,
                config,
                steps,
            )[i] == AnnounceEvent::Completed || run_events(s, config, steps)[i]
                == AnnounceEvent::Regular),
        s.completed_sent ==> run_state(s, config, steps).completed_sent,
        s.downloaded <= config.total_bytes ==> run_state(s, config, steps).downloaded
            <= config.total_bytes,
    decreases steps.len(),
{
    if steps.len() > 0 {
        let (t, a) = step_model(s, config, steps[0]);
        law_tick_step(s, config, steps[0].0, steps[0].1);
        law_completed_at_most_once(t, config, steps.drop_first());
        let rest = run_events(t, config, steps.drop_first());
        lemma_count_concat(tick_events(a), rest);
        let te = tick_events(a);
        lemma_count_concat(
            if a.completed {
                seq![AnnounceEvent::Completed]
            } else {
                Seq::empty()
            },
            if a.regular {
                seq![AnnounceEvent::Regular]
            } else {
                Seq::empty()
            },
        );
        assert(count_completed(seq![AnnounceEvent::Regular]) == 0) by {
            reveal_with_fuel(count_completed, 2);
            assert(seq![AnnounceEvent::Regular].drop_first() =~= Seq::<AnnounceEvent>::empty());
        }
        assert(count_completed(seq![AnnounceEvent::Completed]) == 1) by {
            reveal_with_fuel(count_completed, 2);
            assert(seq![AnnounceEvent::Completed].drop_first() =~= Seq::<AnnounceEvent>::empty());
        }
        let ev = run_events(s, config, steps);
        assert forall|i: int| 0 <= i < ev.len() implies (#[trigger] ev[i]
            == AnnounceEvent::Completed || ev[i] == AnnounceEvent::Regular) by {
            if i >= te.len() {
                assert(ev[i] == rest[i - te.len()]);
            }
        }
    }
}

/// The announces of a whole session come in order: `started` first,
/// `stopped` last, and in between only regular announces and at most one
/// `completed`.
pub proof fn law_announce_order(
    config: SpooferConfig,
    started: Option<AnnounceReply>,
    steps: Seq<(u64, u64, Option<AnnounceReply>)>,
)
    ensures
        ({
            let ev = session_events(config, started, steps);
            &&& ev[0] == AnnounceEvent::Started
            &&& ev.last() == AnnounceEvent::Stopped
            &&& forall|i: int|
                0 < i < ev.len() - 1 ==> (#[trigger] ev[i] == AnnounceEvent::Completed || ev[i]
                    == AnnounceEvent::Regular)
            &&& count_completed(ev) <= 1
        }),
{
    let s = started_session(config, started);
    let mid = run_events(s, config, steps);
    law_completed_at_most_once(s, config, steps);
    let ev = session_events(config, started, steps);
    assert forall|i: int| 0 < i < ev.len() - 1 implies (#[trigger] ev[i]
        == AnnounceEvent::Completed || ev[i] == AnnounceEvent::Regular) by {
        assert(ev[i] == mid[i - 1]);
    }
    lemma_count_concat(seq![AnnounceEvent::Started] + mid, seq![AnnounceEvent::Stopped]);
    lemma_count_concat(seq![AnnounceEvent::Started], mid);
    assert(count_completed(seq![AnnounceEvent::Started]) == 0) by {
        reveal_with_fuel(count_completed, 2);
        assert(seq![AnnounceEvent::Started].drop_first() =~= Seq::<AnnounceEvent>::empty());
    }
    assert(count_completed(seq![AnnounceEvent::Stopped]) == 0) by {
        reveal_with_fuel(count_completed, 2);
        assert(seq![AnnounceEvent::Stopped].drop_first() =~= Seq::<AnnounceEvent>::empty());
    }
}

/// The interval that a reply asks for is its `interval` value and nothing
/// else: whatever other keys the reply holds (`min interval` among them),
/// a non-negative `interval` is taken as it is, a negative one as 0, and
/// 1800 seconds stand in only when the reply has no `interval`.
pub proof fn law_reply_interval_is_interval(body: Seq<u8>)
    ensures
        bencode_int_spec(body, "interval"@) matches Some(n) ==> (n >= 0 ==> reply_interval(body) == n)
            && (n < 0 ==> reply_interval(body) == 0),
        bencode_int_spec(body, "interval"@) is None ==> reply_interval(body) == 1800,
{
}

/// A reply that begins with the key `interval` and the integer `n >= 0`
/// asks for an interval of `n` seconds, whatever follows.
pub proof fn law_reply_interval_written(n: i64, rest: Seq<u8>)
    requires
        n >= 0,
    ensures
        reply_interval(key_tag("interval"@) + int_field(n) + rest) == n,
{
    law_bencode_int_round_trip("interval"@, n, rest);
}

/// The announced `left` is what is still to download: it and the
/// downloaded total add up to the torrent's size, and it is 0 once more
/// than the size was downloaded.
pub proof fn law_bytes_left(total: u64, downloaded: u64)
    ensures
        downloaded <= total ==> bytes_left(total, downloaded) + downloaded == total,
        downloaded > total ==> bytes_left(total, downloaded) == 0,
{
}

/// Each second adds its increments: with a positive upload rate the upload
/// increment is added (stopping at `u64::MAX`), whether or not `completed`
/// was announced; with a positive download rate and the download not yet
/// complete, the download increment is added, stopping at the torrent's
/// size; without a rate the total stays.
pub proof fn law_tick_adds_increments(
    s: AnnounceSession,
    config: SpooferConfig,
    up: u64,
    down: u64,
)
    ensures
        ({
            let t = tick_model(s, config, up, down).0;
            &&& (config.upload_rate_bps > 0 && s.uploaded + up <= u64::MAX ==> t.uploaded
                == s.uploaded + up)
            &&& (config.upload_rate_bps > 0 && s.uploaded + up > u64::MAX ==> t.uploaded
                == u64::MAX)
            &&& (config.upload_rate_bps == 0 ==> t.uploaded == s.uploaded)
            &&& (config.download_rate_bps > 0 && s.downloaded < config.total_bytes
                && s.downloaded + down <= config.total_bytes ==> t.downloaded == s.downloaded
                + down)
            &&& (config.download_rate_bps > 0 && s.downloaded < config.total_bytes
                && s.downloaded + down > config.total_bytes ==> t.downloaded == config.total_bytes)
            &&& (config.download_rate_bps == 0 || s.downloaded >= config.total_bytes
                ==> t.downloaded == s.downloaded)
        }),
{
}

/// The snapshot of a session that has just been started.
pub fn initial_snapshot(config: &SpooferConfig) -> (r: SpooferSnapshot)
    ensures
        r.uploaded == config.initial_uploaded,
        r.downloaded == config.initial_downloaded,
        r.seeders is None && r.leechers is None,
        r.interval_secs == 0 && r.countdown_secs == 0,
        r.running,
        r.last_error is None,
{
    SpooferSnapshot {
        uploaded: config.initial_uploaded,
        downloaded: config.initial_downloaded,
        seeders: None,
        leechers: None,
        interval_secs: 0,
        countdown_secs: 0,
        running: true,
        last_error: None,
    }
}

/// Records a session's state in its snapshot; an error, when given, replaces
/// the last one, and otherwise the last error stays.
pub fn set_snapshot(
    snap: &mut SpooferSnapshot,
    uploaded: u64,
    downloaded: u64,
    seeders: Option<i64>,
    leechers: Option<i64>,
    interval_secs: u64,
    countdown_secs: u64,
    running: bool,
    last_error: Option<String>,
)
    ensures
        final(snap).uploaded == uploaded,
        final(snap).downloaded == downloaded,
        final(snap).seeders == seeders,
        final(snap).leechers == leechers,
        final(snap).interval_secs == interval_secs,
        final(snap).countdown_secs == countdown_secs,
        final(snap).running == running,
        final(snap).last_error == (if last_error is Some {
            last_error
        } else {
            old(snap).last_error
        }),
{
    snap.uploaded = uploaded;
    snap.downloaded = downloaded;
    snap.seeders = seeders;
    snap.leechers = leechers;
    snap.interval_secs = interval_secs;
    snap.countdown_secs = countdown_secs;
    snap.running = running;
    if last_error.is_some() {
        snap.last_error = last_error;
    }
}

impl AnnounceSession {
    /// Records the running session in its snapshot, with the interval and
    /// peer counts of `shown`; the last error stays.
    pub fn report(&self, snap: &mut SpooferSnapshot, shown: AnnounceReply)
        ensures
            final(snap).uploaded == self.uploaded,
            final(snap).downloaded == self.downloaded,
            final(snap).seeders == shown.seeders,
            final(snap).leechers == shown.leechers,
            final(snap).interval_secs == shown.interval_secs,
            final(snap).countdown_secs == self.countdown,
            final(snap).running,
            final(snap).last_error == old(snap).last_error,
    {
        set_snapshot(
            snap,
            self.uploaded,
            self.downloaded,
            shown.seeders,
            shown.leechers,
            shown.interval_secs,
            self.countdown,
            true,
            None,
        );
    }

    /// Records the end of the session after its `stopped` announce: the
    /// totals stay, the peer counts and timers are cleared, and the session
    /// no longer runs; the last error stays.
    pub fn stop(&self, snap: &mut SpooferSnapshot)
        ensures
            final(snap).uploaded == self.uploaded,
            final(snap).downloaded == self.downloaded,
            final(snap).seeders is None,
            final(snap).leechers is None,
            final(snap).interval_secs == 0,
            final(snap).countdown_secs == 0,
            !final(snap).running,
            final(snap).last_error == old(snap).last_error,
    {
        set_snapshot(snap, self.uploaded, self.downloaded, None, None, 0, 0, false, None);
    }
}

} // verus!
