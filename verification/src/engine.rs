//! The torrent engine's reports turned into table rows.
//!
//! The engine itself runs in the program around the library; it hands over
//! what it knows of each torrent in the plain types below.
use crate::types::{TorrentRow, TorrentStatus};
use vstd::prelude::*;

verus! {

/// The state that the engine reports for a torrent.
#[derive(Debug, Clone, Copy, PartialEq, Eq, Structural)]
pub enum TorrentStatsState {
    Initializing,
    Live,
    Paused,
    Error,
}

/// Figures of a torrent that is running: its download speed in bytes per
/// second and its numbers of connected and known peers.
#[derive(Debug, Clone, Copy, PartialEq, Eq, Structural)]
pub struct LiveStats {
    pub down_speed_bps: u64,
    pub peers_live: usize,
    pub peers_seen: usize,
}

/// What the engine reports of a torrent.
#[derive(Debug, Clone)]
pub struct TorrentStats {
    pub state: TorrentStatsState,
    pub finished: bool,
    pub total_bytes: u64,
    pub progress_bytes: u64,
    pub error: Option<String>,
    pub live: Option<LiveStats>,
}

/// A torrent as the engine lists it; the id, name and figures may be missing.
#[derive(Debug, Clone)]
pub struct ListedTorrent {
    pub id: Option<usize>,
    pub info_hash: String,
    pub name: Option<String>,
    pub stats: Option<TorrentStats>,
}

/// The message shown for an engine error that came without one.
pub open spec fn unknown_error() -> Seq<char> {
    "unknown error"@
}

/// `row` is the table row for torrent `id` named `name` with figures `stats`:
/// the status follows the engine's state (a running torrent seeds once
/// finished and downloads before), and speed and peers are 0 for a torrent
/// that is not running.
pub open spec fn is_row_of(id: usize, name: String, stats: TorrentStats, row: TorrentRow) -> bool {
    &&& row.id == id
    &&& row.name == name
    &&& row.total_bytes == stats.total_bytes
    &&& row.progress_bytes == stats.progress_bytes
    &&& row.down_speed_bps == match stats.live {
        Some(l) => l.down_speed_bps,
        None => 0,
    }
    &&& row.peers_live == match stats.live {
        Some(l) => l.peers_live,
        None => 0,
    }
    &&& row.peers_seen == match stats.live {
        Some(l) => l.peers_seen,
        None => 0,
    }
    &&& match stats.state {
        TorrentStatsState::Initializing => row.status == TorrentStatus::Initializing,
        TorrentStatsState::Live => row.status == if stats.finished {
            TorrentStatus::Seeding
        } else {
            TorrentStatus::Downloading
        },
        TorrentStatsState::Paused => row.status == TorrentStatus::Paused,
        TorrentStatsState::Error => match stats.error {
            Some(e) => row.status == TorrentStatus::Error(e),
            None => (row.status matches TorrentStatus::Error(m) && m@ == unknown_error()),
        },
    }
}

/// The table row for torrent `id` named `name` with figures `stats`.
pub fn stats_to_row(id: usize, name: String, stats: TorrentStats) -> (row: TorrentRow)
    ensures
        is_row_of(id, name, stats, row),
{
    let status = match stats.state {
        TorrentStatsState::Initializing => TorrentStatus::Initializing,
        TorrentStatsState::Live => {
            if stats.finished {
                TorrentStatus::Seeding
            } else {
                TorrentStatus::Downloading
            }
        },
        TorrentStatsState::Paused => TorrentStatus::Paused,
        TorrentStatsState::Error => TorrentStatus::Error(
            match stats.error {
                Some(e) => e,
                None => "unknown error".to_owned(),
            },
        ),
    };
    let (down_speed_bps, peers_live, peers_seen) = match stats.live {
        Some(l) => (l.down_speed_bps, l.peers_live, l.peers_seen),
        None => (0, 0, 0),
    };
    TorrentRow {
        id,
        name,
        total_bytes: stats.total_bytes,
        progress_bytes: stats.progress_bytes,
        down_speed_bps,
        peers_live,
        peers_seen,
        status,
    }
}

/// The listed torrents that have an id and figures, in order.
pub open spec fn shown_torrents(list: Seq<ListedTorrent>) -> Seq<ListedTorrent>
    decreases list.len(),
{
    if list.len() == 0 {
        Seq::empty()
    } else {
        let rest = shown_torrents(list.drop_last());
        if list.last().id is Some && list.last().stats is Some {
            rest.push(list.last())
        } else {
            rest
        }
    }
}

/// The name under which a listed torrent is shown: its name, or else its info hash.
pub open spec fn shown_name(t: ListedTorrent) -> String {
    match t.name {
        Some(n) => n,
        None => t.info_hash,
    }
}

/// The table rows for the engine's list: one row for each torrent that has
/// an id and figures, in order, named by `shown_name`.
pub fn rows_of(list: Vec<ListedTorrent>) -> (rows: Vec<TorrentRow>)
    ensures
        rows@.len() == shown_torrents(list@).len(),
        forall|i: int|
            0 <= i < rows@.len() ==> {
                let t = #[trigger] shown_torrents(list@)[i];
                is_row_of(t.id.unwrap(), shown_name(t), t.stats.unwrap(), rows@[i])
            },
{
    let ghost orig = list@;
    let mut list = list;
    let mut rows: Vec<TorrentRow> = Vec::new();
    let mut i: usize = 0;
    let total = list.len();
    assert(orig.take(0) =~= Seq::<ListedTorrent>::empty());
    while list.len() > 0
        invariant
            i + list@.len() == total == orig.len(),
            list@ == orig.skip(i as int),
            rows@.len() == shown_torrents(orig.take(i as int)).len(),
            forall|j: int|
                0 <= j < rows@.len() ==> {
                    let t = #[trigger] shown_torrents(orig.take(i as int))[j];
                    is_row_of(t.id.unwrap(), shown_name(t), t.stats.unwrap(), rows@[j])
                },
        decreases list@.len(),
    {
        let t = list.remove(0);
        proof {
            assert(t == orig[i as int]);
            assert(orig.take(i + 1).drop_last() =~= orig.take(i as int));
            assert(orig.take(i + 1).last() == orig[i as int]);
            assert(list@ =~= orig.skip(i + 1));
        }
        let ghost before = shown_torrents(orig.take(i as int));
        match (t.id, t.stats) {
            (Some(id), Some(stats)) => {
                let name = match t.name {
                    Some(n) => n,
                    None => t.info_hash,
                };
                let row = stats_to_row(id, name, stats);
                rows.push(row);
                proof {
                    let after = shown_torrents(orig.take(i + 1));
                    assert(after == before.push(orig[i as int]));
                    assert forall|j: int| 0 <= j < rows@.len() implies {
                        let u = #[trigger] after[j];
                        is_row_of(u.id.unwrap(), shown_name(u), u.stats.unwrap(), rows@[j])
                    } by {
                        if j < before.len() {
                            assert(after[j] == before[j]);
                        }
                    }
                }
            },
            _ => {
                proof {
                    assert(shown_torrents(orig.take(i + 1)) == before);
                }
            },
        }
        i = i + 1;
    }
    assert(orig.take(total as int) =~= orig);
    rows
}

} // verus!
