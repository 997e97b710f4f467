use synsekai::bencode::{parse_bencode_int, parse_bencode_string};
use synsekai::spoofer::{
    build_announce_url, AnnounceEvent, generate_key, generate_peer_id, initial_snapshot, key_from,
    peer_id_from, percent_encode_bytes, percent_encode_hex, read_announce_reply, set_snapshot,
    AnnounceParams, AnnounceReply, AnnounceSession, SpooferConfig, SpooferError,
};
use synsekai::types::{ClientProfile, SpooferSnapshot};

fn make_config(tracker_url: &str) -> SpooferConfig {
    SpooferConfig {
        tracker_url: tracker_url.into(),
        info_hash_hex: "aabbccddeeff00112233445566778899aabbccdd".into(),
        total_bytes: 500_000_000,
        upload_rate_bps: 0,
        download_rate_bps: 0,
        initial_uploaded: 0,
        initial_downloaded: 0,
        client: ClientProfile::QBittorrent4_6,
        port: 51413,
    }
}

fn make_params<'a>(
    peer_id: &'a str,
    uploaded: u64,
    downloaded: u64,
    event: &'a str,
) -> AnnounceParams<'a> {
    AnnounceParams { peer_id, key: "DEADBEEF", uploaded, downloaded, event }
}

#[test]
fn build_announce_url_includes_required_fields() {
    let config = make_config("http://tracker.example.com/announce");
    let params = make_params("-qB4600-123456789012", 1000, 0, "started");
    let url = build_announce_url(&config, &params).unwrap();

    assert!(url.contains("info_hash="), "must contain info_hash");
    assert!(url.contains("peer_id="), "must contain peer_id");
    assert!(url.contains("port=51413"), "must contain port");
    assert!(url.contains("uploaded=1000"), "must contain uploaded");
    assert!(url.contains("downloaded=0"), "must contain downloaded");
    assert!(url.contains("left=500000000"), "must contain left");
    assert!(url.contains("compact=1"), "must contain compact");
    assert!(url.contains("no_peer_id=1"), "must contain no_peer_id");
    assert!(url.contains("numwant=200"), "must contain numwant");
    assert!(url.contains("event=started"), "must contain event");
    assert!(url.contains("key=DEADBEEF"), "must contain key");
}

#[test]
fn build_announce_url_percent_encodes_info_hash() {
    let config = make_config("http://tracker.example.com/announce");
    let params = make_params("-qB4600-123456789012", 0, 0, "");
    let url = build_announce_url(&config, &params).unwrap();

    let ih_pos = url.find("info_hash=").unwrap();
    let after = &url[ih_pos + 10..];
    let end = after.find('&').unwrap_or(after.len());
    let encoded = &after[..end];
    assert_eq!(encoded.len(), 60, "20 bytes × 3 chars (%XX) = 60");
    assert!(encoded.starts_with('%'), "must start with %");
}

#[test]
fn build_announce_url_appends_to_existing_query() {
    let config = make_config("http://tracker.example.com/announce?passkey=secret");
    let params = make_params("-qB4600-123456789012", 0, 0, "");
    let url = build_announce_url(&config, &params).unwrap();
    assert!(url.starts_with("http://tracker.example.com/announce?passkey=secret&"));
}

#[test]
fn build_announce_url_empty_event_omits_event_param() {
    let config = make_config("http://tracker.example.com/announce");
    let params = make_params("-qB4600-123456789012", 0, 0, "");
    let url = build_announce_url(&config, &params).unwrap();
    assert!(!url.contains("event="), "empty event must be omitted");
}

#[test]
fn parse_bencode_int_extracts_interval() {
    let data = b"d8:intervali1800e8:completei10e10:incompletei5ee";
    assert_eq!(parse_bencode_int(data, "interval"), Some(1800));
    assert_eq!(parse_bencode_int(data, "complete"), Some(10));
    assert_eq!(parse_bencode_int(data, "incomplete"), Some(5));
}

#[test]
fn parse_bencode_int_returns_none_for_missing_key() {
    let data = b"d8:intervali1800ee";
    assert_eq!(parse_bencode_int(data, "complete"), None);
}

#[test]
fn parse_bencode_string_extracts_failure_reason() {
    let data = b"d14:failure reason3:fooe";
    assert_eq!(
        parse_bencode_string(data, "failure reason"),
        Some("foo".into())
    );
}

#[test]
fn parse_bencode_string_returns_none_for_missing_key() {
    let data = b"d8:intervali1800ee";
    assert_eq!(parse_bencode_string(data, "failure reason"), None);
}

#[test]
fn percent_encode_hex_encodes_all_bytes() {
    let hex = "aabbccddeeff00112233445566778899aabbccdd";
    let encoded = percent_encode_hex(hex).unwrap();
    assert_eq!(encoded.len(), 60);
    assert!(encoded.starts_with("%AA%BB"));
}

#[test]
fn percent_encode_hex_rejects_wrong_length() {
    assert!(percent_encode_hex("tooshort").is_err());
}

// ── further cases ───────────────────────────────────────────────────────────

#[test]
fn percent_encode_hex_error_kinds() {
    assert_eq!(percent_encode_hex("tooshort"), Err(SpooferError::InfoHashLength(8)));
    let bad = "zzbbccddeeff00112233445566778899aabbccdd";
    assert_eq!(percent_encode_hex(bad), Err(SpooferError::InvalidHex));
    // Only hex digits spell a byte: a sign is no digit.
    let plus = "+abbccddeeff00112233445566778899aabbccdd";
    assert_eq!(percent_encode_hex(plus), Err(SpooferError::InvalidHex));
    assert_eq!(percent_encode_hex(&"+a".repeat(20)), Err(SpooferError::InvalidHex));
    // Non-ASCII text of the right byte length is rejected, whatever its layout.
    assert_eq!(percent_encode_hex(&"é".repeat(20)), Err(SpooferError::InvalidHex));
    let odd = format!("a{}b", "é".repeat(19));
    assert_eq!(odd.len(), 40);
    assert_eq!(percent_encode_hex(&odd), Err(SpooferError::InvalidHex));
}

#[test]
fn percent_encode_hex_exact_value() {
    let hex = "0123456789abcdefABCDEF000000000000000000";
    assert_eq!(
        percent_encode_hex(hex).unwrap(),
        "%01%23%45%67%89%AB%CD%EF%AB%CD%EF%00%00%00%00%00%00%00%00%00"
    );
}

#[test]
fn percent_encode_bytes_keeps_unreserved() {
    assert_eq!(percent_encode_bytes(b"aZ09-_.~"), "aZ09-_.~");
    assert_eq!(percent_encode_bytes(b" /\xff"), "%20%2F%FF");
    assert_eq!(percent_encode_bytes(b""), "");
}

#[test]
fn build_announce_url_exact_text() {
    let mut config = make_config("http://t.example/a");
    config.total_bytes = 100;
    config.port = 6881;
    let params = AnnounceParams {
        peer_id: "-TR292-ab c",
        key: "0000ABCD",
        uploaded: 7,
        downloaded: 150,
        event: "completed",
    };
    let url = build_announce_url(&config, &params).unwrap();
    assert_eq!(
        url,
        "http://t.example/a?info_hash=%AA%BB%CC%DD%EE%FF%00%11%22%33%44%55%66%77%88%99%AA%BB%CC%DD\
         &peer_id=-TR292-ab%20c&port=6881&uploaded=7&downloaded=150&left=0&compact=1&no_peer_id=1\
         &key=0000ABCD&numwant=200&event=completed"
    );
}

#[test]
fn build_announce_url_rejects_bad_info_hash() {
    let mut config = make_config("http://t.example/a");
    config.info_hash_hex = "abc".into();
    let params = make_params("-qB4600-123456789012", 0, 0, "");
    assert_eq!(build_announce_url(&config, &params), Err(SpooferError::InfoHashLength(3)));
}

#[test]
fn spoofer_error_messages() {
    assert_eq!(
        SpooferError::InfoHashLength(3).message(),
        "info_hash_hex must be 40 chars, got 3"
    );
    assert_eq!(SpooferError::InvalidHex.message(), "invalid hex in info_hash");
}

#[test]
fn parse_bencode_int_edge_cases() {
    assert_eq!(parse_bencode_int(b"d8:intervali-5ee", "interval"), Some(-5));
    assert_eq!(parse_bencode_int(b"d8:intervali+7ee", "interval"), Some(7));
    assert_eq!(parse_bencode_int(b"d8:interval3:abce", "interval"), None);
    assert_eq!(parse_bencode_int(b"d8:intervali12", "interval"), None);
    assert_eq!(parse_bencode_int(b"d8:intervalie", "interval"), None);
    assert_eq!(
        parse_bencode_int(b"d8:intervali9223372036854775808ee", "interval"),
        None
    );
    assert_eq!(
        parse_bencode_int(b"d8:intervali-9223372036854775808ee", "interval"),
        Some(i64::MIN)
    );
}

#[test]
fn parse_bencode_string_edge_cases() {
    assert_eq!(parse_bencode_string(b"d3:key5:abce", "key"), None);
    assert_eq!(parse_bencode_string(b"d3:key0:e", "key"), Some(String::new()));
    assert_eq!(parse_bencode_string(b"d3:key2:\xff\xfee", "key"), None);
    assert_eq!(parse_bencode_string(b"d3:keyx:abe", "key"), None);
    assert_eq!(
        parse_bencode_string("d3:key2:éx".as_bytes(), "key"),
        Some("é".into())
    );
}

#[test]
fn bencode_int_round_trip_values() {
    for n in [0i64, 7, -7, 1800, i64::MAX, i64::MIN] {
        let mut data = b"3:key".to_vec();
        data.extend_from_slice(format!("i{n}e").as_bytes());
        data.extend_from_slice(b"4:more");
        assert_eq!(parse_bencode_int(&data, "key"), Some(n));
    }
}

#[test]
fn bencode_string_round_trip_values() {
    for s in ["", "x", "failure: tracker down", "é ü"] {
        let mut data = b"14:failure reason".to_vec();
        data.extend_from_slice(format!("{}:{}", s.len(), s).as_bytes());
        data.extend_from_slice(b"e");
        assert_eq!(parse_bencode_string(&data, "failure reason"), Some(s.to_string()));
    }
}

#[test]
fn read_announce_reply_cases() {
    let ok = read_announce_reply(b"d8:intervali900e8:completei3e10:incompletei4ee").unwrap();
    assert_eq!(ok, AnnounceReply { interval_secs: 900, seeders: Some(3), leechers: Some(4) });
    let missing = read_announce_reply(b"de").unwrap();
    assert_eq!(missing, AnnounceReply { interval_secs: 1800, seeders: None, leechers: None });
    let negative = read_announce_reply(b"d8:intervali-3ee").unwrap();
    assert_eq!(negative.interval_secs, 0);
    assert_eq!(
        read_announce_reply(b"d14:failure reason7:bad keye"),
        Err("tracker: bad key".to_string())
    );
}

#[test]
fn peer_id_and_key_shapes() {
    for client in [
        ClientProfile::QBittorrent4_6,
        ClientProfile::UTorrent3_3_2,
        ClientProfile::Transmission2_92,
    ] {
        let id = generate_peer_id(client);
        assert_eq!(id.len(), 20);
        assert!(id.starts_with(client.peer_id_prefix()));
        assert!(id[client.peer_id_prefix().len()..].chars().all(|c| c.is_ascii_digit()));
    }
    let key = generate_key();
    assert_eq!(key.len(), 8);
    assert!(key.chars().all(|c| c.is_ascii_hexdigit() && !c.is_ascii_lowercase()));
}

#[test]
fn peer_id_from_and_key_from_exact() {
    assert_eq!(
        peer_id_from(ClientProfile::Transmission2_92, &[0, 1, 12, 255, 9, 10, 20, 33, 44, 55, 66, 77, 88]),
        "-TR292-0125900345678"
    );
    assert_eq!(key_from(0xDEADBEEF), "DEADBEEF");
    assert_eq!(key_from(0x1F), "0000001F");
}

fn session_config(total: u64, up: u64, down: u64) -> SpooferConfig {
    let mut c = make_config("http://t.example/a");
    c.total_bytes = total;
    c.upload_rate_bps = up;
    c.download_rate_bps = down;
    c
}

#[test]
fn session_start_uses_reply_or_defaults() {
    let c = session_config(100, 10, 10);
    let s = AnnounceSession::start(&c, None);
    assert_eq!((s.interval_secs, s.countdown, s.seeders), (1800, 1800, None));
    let s = AnnounceSession::start(
        &c,
        Some(AnnounceReply { interval_secs: 5, seeders: Some(1), leechers: Some(2) }),
    );
    assert_eq!((s.interval_secs, s.countdown, s.leechers), (5, 5, Some(2)));
}

#[test]
fn session_tick_completes_once_and_counts_down() {
    let c = session_config(100, 10, 60);
    let mut s = AnnounceSession::start(
        &c,
        Some(AnnounceReply { interval_secs: 3, seeders: None, leechers: None }),
    );
    let a = s.tick(&c, 10, 60);
    assert!(!a.completed && !a.regular);
    assert_eq!((s.uploaded, s.downloaded, s.countdown), (10, 60, 2));
    // The download stops at the total, announces completed once and restarts the countdown.
    let a = s.tick(&c, 10, 60);
    assert!(a.completed && !a.regular);
    assert_eq!((s.downloaded, s.countdown), (100, 2));
    let a = s.tick(&c, 10, 60);
    assert!(!a.completed && !a.regular);
    let a = s.tick(&c, 10, 60);
    assert!(!a.completed && a.regular);
    assert_eq!(s.countdown, 0);
    let shown = s.regular_announce_done(None);
    assert_eq!(shown.interval_secs, 3);
    assert_eq!(s.countdown, 3);
    let shown = s.regular_announce_done(Some(AnnounceReply {
        interval_secs: 60,
        seeders: Some(9),
        leechers: None,
    }));
    assert_eq!((shown.seeders, s.countdown, s.seeders), (Some(9), 60, None));
}

#[test]
fn session_tick_saturates_upload() {
    let c = session_config(0, u64::MAX, 0);
    let mut s = AnnounceSession::start(&c, None);
    s.tick(&c, u64::MAX, 5);
    s.tick(&c, u64::MAX, 5);
    assert_eq!(s.uploaded, u64::MAX);
    assert_eq!(s.downloaded, 0);
}

#[test]
fn snapshots() {
    let mut c = session_config(100, 0, 0);
    c.initial_uploaded = 4;
    c.initial_downloaded = 100;
    let snap = initial_snapshot(&c);
    assert!(snap.running);
    assert_eq!((snap.uploaded, snap.downloaded), (4, 100));
    let mut snap = SpooferSnapshot::default();
    set_snapshot(&mut snap, 1, 2, Some(3), None, 4, 5, true, Some("e".into()));
    assert_eq!(snap.last_error.as_deref(), Some("e"));
    set_snapshot(&mut snap, 1, 2, Some(3), None, 4, 5, false, None);
    assert_eq!(snap.last_error.as_deref(), Some("e"));
    assert_eq!((snap.seeders, snap.interval_secs, snap.countdown_secs, snap.running), (Some(3), 4, 5, false));
}

#[test]
fn announce_events_and_session_snapshots() {
    assert_eq!(AnnounceEvent::Started.as_str(), "started");
    assert_eq!(AnnounceEvent::Completed.as_str(), "completed");
    assert_eq!(AnnounceEvent::Regular.as_str(), "");
    assert_eq!(AnnounceEvent::Stopped.as_str(), "stopped");

    let c = session_config(100, 10, 0);
    let mut s = AnnounceSession::start(
        &c,
        Some(AnnounceReply { interval_secs: 30, seeders: Some(2), leechers: Some(1) }),
    );
    s.tick(&c, 10, 0);
    let mut snap = initial_snapshot(&c);
    snap.last_error = Some("old".into());
    s.report(&mut snap, s.current());
    assert_eq!((snap.uploaded, snap.seeders, snap.interval_secs, snap.countdown_secs), (10, Some(2), 30, 29));
    assert!(snap.running);
    s.stop(&mut snap);
    assert_eq!((snap.uploaded, snap.downloaded), (10, 0));
    assert_eq!((snap.seeders, snap.leechers, snap.interval_secs, snap.countdown_secs), (None, None, 0, 0));
    assert!(!snap.running);
    assert_eq!(snap.last_error.as_deref(), Some("old"));
}
