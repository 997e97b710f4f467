use synsekai::engine::{rows_of, stats_to_row, ListedTorrent, LiveStats, TorrentStats, TorrentStatsState};
use synsekai::types::{TorrentRow, TorrentStatus};

fn fake_stats(
    state: TorrentStatsState,
    finished: bool,
    total_bytes: u64,
    progress_bytes: u64,
    error: Option<String>,
) -> TorrentStats {
    TorrentStats { state, finished, total_bytes, progress_bytes, error, live: None }
}

fn progress_pct(row: &TorrentRow) -> f32 {
    if row.total_bytes == 0 {
        0.0
    } else {
        row.progress_bytes as f32 / row.total_bytes as f32 * 100.0
    }
}

#[test]
fn stats_to_row_initializing() {
    let stats = fake_stats(TorrentStatsState::Initializing, false, 0, 0, None);
    let row = stats_to_row(1, "t".into(), stats);
    assert_eq!(row.status, TorrentStatus::Initializing);
    assert_eq!(progress_pct(&row), 0.0);
}

#[test]
fn stats_to_row_downloading() {
    let stats = fake_stats(TorrentStatsState::Live, false, 1000, 500, None);
    let row = stats_to_row(0, "t".into(), stats);
    assert_eq!(row.status, TorrentStatus::Downloading);
    assert!((progress_pct(&row) - 50.0).abs() < 0.01);
}

#[test]
fn stats_to_row_seeding() {
    let stats = fake_stats(TorrentStatsState::Live, true, 1000, 1000, None);
    let row = stats_to_row(0, "t".into(), stats);
    assert_eq!(row.status, TorrentStatus::Seeding);
}

#[test]
fn stats_to_row_paused() {
    let stats = fake_stats(TorrentStatsState::Paused, false, 1000, 200, None);
    let row = stats_to_row(0, "t".into(), stats);
    assert_eq!(row.status, TorrentStatus::Paused);
}

#[test]
fn stats_to_row_error_with_message() {
    let stats = fake_stats(TorrentStatsState::Error, false, 0, 0, Some("disk full".into()));
    let row = stats_to_row(0, "t".into(), stats);
    assert_eq!(row.status, TorrentStatus::Error("disk full".into()));
}

#[test]
fn stats_to_row_error_without_message() {
    let stats = fake_stats(TorrentStatsState::Error, false, 0, 0, None);
    let row = stats_to_row(0, "t".into(), stats);
    assert_eq!(row.status, TorrentStatus::Error("unknown error".into()));
}

#[test]
fn stats_to_row_zero_total_bytes_gives_zero_pct() {
    let stats = fake_stats(TorrentStatsState::Initializing, false, 0, 0, None);
    let row = stats_to_row(0, "t".into(), stats);
    assert_eq!(progress_pct(&row), 0.0);
}

// ── further cases ───────────────────────────────────────────────────────────

#[test]
fn stats_to_row_live_figures() {
    let mut stats = fake_stats(TorrentStatsState::Live, false, 2000, 700, None);
    stats.live = Some(LiveStats { down_speed_bps: 4096, peers_live: 3, peers_seen: 47 });
    let row = stats_to_row(9, "ubuntu".into(), stats);
    assert_eq!((row.id, row.name.as_str()), (9, "ubuntu"));
    assert_eq!((row.total_bytes, row.progress_bytes), (2000, 700));
    assert_eq!((row.down_speed_bps, row.peers_live, row.peers_seen), (4096, 3, 47));
}

#[test]
fn rows_of_keeps_listed_torrents_with_id_and_stats() {
    let listed = vec![
        ListedTorrent {
            id: Some(0),
            info_hash: "aa".into(),
            name: Some("first".into()),
            stats: Some(fake_stats(TorrentStatsState::Paused, false, 1, 0, None)),
        },
        ListedTorrent { id: None, info_hash: "bb".into(), name: Some("no id".into()), stats: None },
        ListedTorrent {
            id: Some(2),
            info_hash: "cc".into(),
            name: None,
            stats: Some(fake_stats(TorrentStatsState::Live, true, 1, 1, None)),
        },
        ListedTorrent { id: Some(3), info_hash: "dd".into(), name: None, stats: None },
    ];
    let rows = rows_of(listed);
    assert_eq!(rows.len(), 2);
    assert_eq!((rows[0].id, rows[0].name.as_str(), &rows[0].status), (0, "first", &TorrentStatus::Paused));
    assert_eq!((rows[1].id, rows[1].name.as_str(), &rows[1].status), (2, "cc", &TorrentStatus::Seeding));
}
