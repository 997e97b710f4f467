//! Shared data types: torrent rows and their status, views and modes of the
//! interface, the client profiles that announces imitate, and the live
//! state of a ratio-boost session.
use vstd::prelude::*;

verus! {

/// The state of a torrent as the table shows it.
#[derive(Debug, Clone, PartialEq)]
pub enum TorrentStatus {
    Initializing,
    Downloading,
    Seeding,
    Paused,
    Error(String),
}

/// The short label of a status.
pub open spec fn status_label(s: TorrentStatus) -> Seq<char> {
    match s {
        TorrentStatus::Initializing => "Init"@,
        TorrentStatus::Downloading => "DL"@,
        TorrentStatus::Seeding => "Seed"@,
        TorrentStatus::Paused => "Paused"@,
        TorrentStatus::Error(_) => "Error"@,
    }
}

impl TorrentStatus {
    /// The short label shown in the status column.
    pub fn as_str(&self) -> (r: &'static str)
        ensures
            r@ == status_label(*self),
    {
        match self {
            TorrentStatus::Initializing => "Init",
            TorrentStatus::Downloading => "DL",
            TorrentStatus::Seeding => "Seed",
            TorrentStatus::Paused => "Paused",
            TorrentStatus::Error(_) => "Error",
        }
    }

    /// Whether the torrent is paused.
    pub fn is_paused(&self) -> (r: bool)
        ensures
            r == (*self is Paused),
    {
        matches!(self, TorrentStatus::Paused)
    }
}

/// A row of the torrent table. Progress is kept as the number of bytes
/// downloaded so far; the percentage shown is derived from it.
#[derive(Debug, Clone)]
pub struct TorrentRow {
    pub id: usize,
    pub name: String,
    pub total_bytes: u64,
    pub progress_bytes: u64,
    pub down_speed_bps: u64,
    pub peers_live: usize,
    pub peers_seen: usize,
    pub status: TorrentStatus,
}

/// The two tabs of the interface.
#[derive(Clone, Copy, Debug, PartialEq, Eq, Structural)]
pub enum AppView {
    Downloader,
    Spoofer,
}

impl Default for AppView {
    fn default() -> (r: Self)
        ensures
            r == AppView::Downloader,
    {
        AppView::Downloader
    }
}

/// The dialog state of the downloader tab.
#[derive(Clone, Copy, Debug, PartialEq, Eq, Structural)]
pub enum AppMode {
    Normal,
    AddDialog,
    ConfirmRemove { torrent_id: usize, delete_files: bool },
}

impl Default for AppMode {
    fn default() -> (r: Self)
        ensures
            r == AppMode::Normal,
    {
        AppMode::Normal
    }
}

/// The BitTorrent clients whose announces a ratio-boost session imitates.
#[derive(Clone, Copy, PartialEq, Eq, Structural, Debug)]
pub enum ClientProfile {
    QBittorrent4_6,
    UTorrent3_3_2,
    Transmission2_92,
}

/// The peer-id prefix of each client.
pub open spec fn peer_id_prefix_of(p: ClientProfile) -> Seq<char> {
    match p {
        ClientProfile::QBittorrent4_6 => "-qB4600-"@,
        ClientProfile::UTorrent3_3_2 => "-UT3320-"@,
        ClientProfile::Transmission2_92 => "-TR292-"@,
    }
}

/// The HTTP user agent of each client.
pub open spec fn user_agent_of(p: ClientProfile) -> Seq<char> {
    match p {
        ClientProfile::QBittorrent4_6 => "qBittorrent/4.6.0"@,
        ClientProfile::UTorrent3_3_2 => "uTorrent/3320(25302)"@,
        ClientProfile::Transmission2_92 => "Transmission/2.92"@,
    }
}

/// The display name of each client.
pub open spec fn label_of(p: ClientProfile) -> Seq<char> {
    match p {
        ClientProfile::QBittorrent4_6 => "qBittorrent 4.6"@,
        ClientProfile::UTorrent3_3_2 => "uTorrent 3.3.2"@,
        ClientProfile::Transmission2_92 => "Transmission 2.92"@,
    }
}

/// Every client profile, in the order in which the interface cycles through them.
pub open spec fn all_profiles() -> Seq<ClientProfile> {
    seq![ClientProfile::QBittorrent4_6, ClientProfile::UTorrent3_3_2, ClientProfile::Transmission2_92]
}

impl ClientProfile {
    /// The first bytes of the peer id that this client sends.
    pub fn peer_id_prefix(self) -> (r: &'static str)
        ensures
            r@ == peer_id_prefix_of(self),
    {
        match self {
            ClientProfile::QBittorrent4_6 => "-qB4600-",
            ClientProfile::UTorrent3_3_2 => "-UT3320-",
            ClientProfile::Transmission2_92 => "-TR292-",
        }
    }

    /// The user agent that this client sends.
    pub fn user_agent(self) -> (r: &'static str)
        ensures
            r@ == user_agent_of(self),
    {
        match self {
            ClientProfile::QBittorrent4_6 => "qBittorrent/4.6.0",
            ClientProfile::UTorrent3_3_2 => "uTorrent/3320(25302)",
            ClientProfile::Transmission2_92 => "Transmission/2.92",
        }
    }

    /// The name shown in the interface.
    pub fn label(self) -> (r: &'static str)
        ensures
            r@ == label_of(self),
    {
        match self {
            ClientProfile::QBittorrent4_6 => "qBittorrent 4.6",
            ClientProfile::UTorrent3_3_2 => "uTorrent 3.3.2",
            ClientProfile::Transmission2_92 => "Transmission 2.92",
        }
    }

    /// Every profile, in cycling order.
    pub fn all() -> (r: &'static [ClientProfile])
        ensures
            r@ == all_profiles(),
    {
        &[ClientProfile::QBittorrent4_6, ClientProfile::UTorrent3_3_2, ClientProfile::Transmission2_92]
    }
}

impl Default for ClientProfile {
    fn default() -> (r: Self)
        ensures
            r == ClientProfile::QBittorrent4_6,
    {
        ClientProfile::QBittorrent4_6
    }
}

/// What a running ratio-boost session reports.
#[derive(Clone, Debug)]
pub struct SpooferSnapshot {
    pub uploaded: u64,
    pub downloaded: u64,
    pub seeders: Option<i64>,
    pub leechers: Option<i64>,
    pub interval_secs: u64,
    pub countdown_secs: u64,
    pub running: bool,
    pub last_error: Option<String>,
}

impl SpooferSnapshot {
    /// A snapshot with every counter at zero, not running, without error.
    pub fn new() -> (r: Self)
        ensures
            r.uploaded == 0 && r.downloaded == 0,
            r.seeders is None && r.leechers is None,
            r.interval_secs == 0 && r.countdown_secs == 0,
            !r.running,
            r.last_error is None,
    {
        SpooferSnapshot {
            uploaded: 0,
            downloaded: 0,
            seeders: None,
            leechers: None,
            interval_secs: 0,
            countdown_secs: 0,
            running: false,
            last_error: None,
        }
    }
}

impl Default for SpooferSnapshot {
    fn default() -> (r: Self)
        ensures
            r.uploaded == 0 && r.downloaded == 0,
            r.seeders is None && r.leechers is None,
            r.interval_secs == 0 && r.countdown_secs == 0,
            !r.running,
            r.last_error is None,
    {
        SpooferSnapshot::new()
    }
}

/// The editable fields of the ratio-boost tab.
#[derive(Clone, Copy, Debug, PartialEq, Eq, Structural)]
pub enum SpooferField {
    UploadRate,
    DownloadRate,
    TrackerUrl,
}

impl Default for SpooferField {
    fn default() -> (r: Self)
        ensures
            r == SpooferField::UploadRate,
    {
        SpooferField::UploadRate
    }
}

} // verus!
