//! What the screen shows: the texts, geometry and tones that the drawing
//! code puts on the terminal. Drawing itself happens outside the library.
use crate::app::App;
use crate::numbers::{decimal, pad_left, push_decimal, push_decimal_padded, push_signed_decimal, signed_decimal};
use crate::strings::string_push;
use crate::types::{label_of, AppMode, SpooferSnapshot, TorrentRow};
use crate::unicode::{byte_len, chars_of, chars_within, char_index_at, is_boundary};
use vstd::prelude::*;

verus! {

/// What `bytesize::ByteSize(bytes)` displays: the size in decimal units.
pub uninterp spec fn bytesize_text(bytes: u64) -> Seq<char>;

/// `bytesize::ByteSize(bytes).to_string()`. The contract names the text,
/// and states its documented form below 1000 bytes: the number and " B".
/// From 1000 bytes on it is a one-decimal float with a unit prefix, which
/// the contract leaves to the name.
#[verifier::external_body]
fn byte_size_text(bytes: u64) -> (r: String)
    ensures
        r@ == bytesize_text(bytes),
        bytes < 1000 ==> r@ == decimal(bytes as nat) + " B"@,
{
    bytesize::ByteSize(bytes).to_string()
}

/// `s` right-aligned in a field of `width` characters (as `format!("{:>w$}", s)`).
pub fn pad_left_spaces(s: &str, width: usize) -> (r: String)
    ensures
        r@ == pad_left(s@, width as nat, ' '),
{
    let n = chars_of(s).len();
    let mut r = String::new();
    let mut i = n;
    while i < width
        invariant
            n == s@.len(),
            n <= i,
            i <= width || i == n,
            r@ == Seq::new((i - n) as nat, |j: int| ' '),
        decreases width - i,
    {
        string_push(&mut r, ' ');
        i = i + 1;
        assert(r@ =~= Seq::new((i - n) as nat, |j: int| ' '));
    }
    r.append(s);
    if n >= width {
        assert(r@ =~= pad_left(s@, width as nat, ' '));
    } else {
        assert(r@ =~= pad_left(s@, width as nat, ' '));
    }
    r
}

/// The speed cell for a speed whose size text is `size_text`: the text and
/// "/s", right-aligned in ten characters.
pub fn speed_cell(size_text: &str) -> (r: String)
    ensures
        r@ == pad_left(size_text@ + "/s"@, 10, ' '),
{
    let mut t = size_text.to_owned();
    t.append("/s");
    pad_left_spaces(t.as_str(), 10)
}

/// The speed column's text for `bps` bytes per second.
pub fn format_speed(bps: u64) -> (r: String)
    ensures
        r@ == pad_left(bytesize_text(bps) + "/s"@, 10, ' '),
{
    let size = byte_size_text(bps);
    speed_cell(size.as_str())
}

/// The size column's text for `bytes`.
pub fn format_size(bytes: u64) -> (r: String)
    ensures
        r@ == bytesize_text(bytes),
        bytes < 1000 ==> r@ == decimal(bytes as nat) + " B"@,
{
    byte_size_text(bytes)
}

/// Minutes and seconds, two digits each.
pub open spec fn countdown_text(secs: u64) -> Seq<char> {
    pad_left(decimal((secs / 60) as nat), 2, '0') + ":"@ + pad_left(decimal((secs % 60) as nat), 2, '0')
}

/// The time to the next announce as minutes and seconds (`mm:ss`; the
/// minutes take more digits past 99).
pub fn format_countdown(secs: u64) -> (r: String)
    ensures
        r@ == countdown_text(secs),
{
    let mut s = String::new();
    push_decimal_padded(&mut s, secs / 60, 2);
    s.append(":");
    push_decimal_padded(&mut s, secs % 60, 2);
    s
}

/// A rectangle of the screen, in cells.
#[derive(Debug, Clone, Copy, PartialEq, Eq, Structural)]
pub struct Area {
    pub x: u16,
    pub y: u16,
    pub width: u16,
    pub height: u16,
}

/// Subtraction that stops at zero.
pub open spec fn sat_sub(a: u16, b: u16) -> u16 {
    if a >= b {
        (a - b) as u16
    } else {
        0
    }
}

/// The smaller of two sizes.
pub open spec fn min_u16(a: u16, b: u16) -> u16 {
    if a <= b {
        a
    } else {
        b
    }
}

/// The area of `width` by `height` cells centred in `parent`, cut to
/// `parent`'s size.
pub open spec fn centered(width: u16, height: u16, parent: Area) -> Area {
    Area {
        x: (parent.x + sat_sub(parent.width, width) / 2) as u16,
        y: (parent.y + sat_sub(parent.height, height) / 2) as u16,
        width: min_u16(width, parent.width),
        height: min_u16(height, parent.height),
    }
}

/// Centres an area of the given size in `parent`.
pub fn centered_rect(width: u16, height: u16, parent: Area) -> (r: Area)
    requires
        parent.x + sat_sub(parent.width, width) / 2 <= u16::MAX,
        parent.y + sat_sub(parent.height, height) / 2 <= u16::MAX,
    ensures
        r == centered(width, height, parent),
{
    let x = parent.x + parent.width.saturating_sub(width) / 2;
    let y = parent.y + parent.height.saturating_sub(height) / 2;
    Area {
        x,
        y,
        width: if width < parent.width {
            width
        } else {
            parent.width
        },
        height: if height < parent.height {
            height
        } else {
            parent.height
        },
    }
}

/// How a one-line input field shows its text in a box `inner_w` cells
/// wide: the characters from the scroll offset on, and the cursor's column
/// within the box.
#[derive(Debug, Clone)]
pub struct InputView {
    pub visible: String,
    pub cursor_col: usize,
}

/// The number of characters scrolled out on the left so that the cursor,
/// `col` characters into the text, stays in a box `inner_w` cells wide.
pub open spec fn scroll_for(col: nat, inner_w: usize) -> nat {
    let room: nat = if inner_w >= 1 {
        (inner_w - 1) as nat
    } else {
        0
    };
    if col >= room {
        (col - room) as nat
    } else {
        0
    }
}

/// What an input field with text `value` and cursor `cursor` (a byte
/// offset) shows in a box `inner_w` cells wide.
pub fn input_view(value: &str, cursor: usize, inner_w: usize) -> (r: InputView)
    requires
        is_boundary(value@, cursor as int),
        byte_len(value@) <= usize::MAX,
    ensures
        ({
            let col = chars_within(value@, cursor as int);
            let scroll = scroll_for(col, inner_w);
            &&& r.visible@ == value@.skip(scroll as int)
            &&& r.cursor_col == col - scroll
        }),
{
    let v = chars_of(value);
    let col = char_index_at(&v, cursor);
    let room = inner_w.saturating_sub(1);
    let scroll = col.saturating_sub(room);
    let mut visible = String::new();
    let mut i = scroll;
    while i < v.len()
        invariant
            scroll <= i <= v.len(),
            visible@ == v@.subrange(scroll as int, i as int),
        decreases v.len() - i,
    {
        string_push(&mut visible, v[i]);
        i = i + 1;
        assert(visible@ =~= v@.subrange(scroll as int, i as int));
    }
    assert(visible@ =~= value@.skip(scroll as int));
    InputView { visible, cursor_col: col - scroll }
}

/// The colours that texts are shown in.
#[derive(Debug, Clone, Copy, PartialEq, Eq, Structural)]
pub enum Tone {
    White,
    Red,
    Green,
    Yellow,
    Cyan,
    DarkGray,
}

/// A piece of text and its colour.
#[derive(Debug, Clone)]
pub struct Span {
    pub text: String,
    pub tone: Tone,
}

/// The spans `spans` hold exactly the texts and tones of `expected`, in order.
pub open spec fn spans_are(spans: Seq<Span>, expected: Seq<(Seq<char>, Tone)>) -> bool {
    &&& spans.len() == expected.len()
    &&& forall|i: int|
        0 <= i < spans.len() ==> (#[trigger] spans[i]).text@ == expected[i].0 && spans[i].tone
            == expected[i].1
}

/// The key hints of the downloader tab.
pub open spec fn normal_hints() -> Seq<char> {
    "[a] Add  [p] Pause/Resume  [d] Remove  [↑↓/jk] Nav  [q] Quit"@
}

/// `s` begins with "Error".
pub open spec fn is_error_text(s: Seq<char>) -> bool {
    s.len() >= 5 && s.take(5) == "Error"@
}

/// The status bar for a dialog state and status message: the message (red
/// for an error) before the hints in the downloader tab, the add dialog's
/// hint or its error, or the remove dialog's prompt.
pub open spec fn status_bar_text(mode: AppMode, message: Option<Seq<char>>) -> Seq<(Seq<char>, Tone)> {
    match mode {
        AppMode::Normal => match message {
            Some(msg) => seq![
                (" "@ + msg + "  "@, if is_error_text(msg) { Tone::Red } else { Tone::Green }),
                ("│  "@, Tone::DarkGray),
                (normal_hints(), Tone::White),
            ],
            None => seq![(" "@ + normal_hints(), Tone::White)],
        },
        AppMode::AddDialog => match message {
            Some(msg) => seq![
                (" "@ + msg + "  "@, Tone::Red),
                ("│  "@, Tone::DarkGray),
                ("[Esc] Cancel"@, Tone::Yellow),
            ],
            None => seq![(" Enter path or magnet link  [Enter] Add  [Esc] Cancel"@, Tone::Yellow)],
        },
        AppMode::ConfirmRemove { delete_files, .. } => seq![
            (
                " Remove torrent? [Space] delete files: "@ + yes_no(delete_files)
                    + "  [Enter] Confirm  [Esc] Cancel"@,
                Tone::Red,
            ),
        ],
    }
}

/// "YES" when files are to be deleted, "no" otherwise.
pub open spec fn yes_no(delete_files: bool) -> Seq<char> {
    if delete_files {
        "YES"@
    } else {
        "no"@
    }
}

/// Whether `s` begins with "Error".
fn starts_with_error(s: &str) -> (r: bool)
    ensures
        r == is_error_text(s@),
{
    proof {
        reveal_strlit("Error");
    }
    let v = chars_of(s);
    if v.len() < 5 {
        return false;
    }
    let r = v[0] == 'E' && v[1] == 'r' && v[2] == 'r' && v[3] == 'o' && v[4] == 'r';
    if r {
        assert(s@.take(5) =~= "Error"@);
    } else {
        assert(s@.take(5)[0] != "Error"@[0] || s@.take(5)[1] != "Error"@[1] || s@.take(5)[2]
            != "Error"@[2] || s@.take(5)[3] != "Error"@[3] || s@.take(5)[4] != "Error"@[4]);
    }
    r
}

/// A span of `text` in `tone`.
fn span(text: String, tone: Tone) -> (r: Span)
    ensures
        r.text == text,
        r.tone == tone,
{
    Span { text, tone }
}

/// "YES" or "no" for the "delete files" flag.
pub fn delete_files_label(delete_files: bool) -> (r: &'static str)
    ensures
        r@ == yes_no(delete_files),
{
    if delete_files {
        "YES"
    } else {
        "no"
    }
}

/// The texts of the status bar.
pub fn status_bar_spans(mode: AppMode, message: &Option<String>) -> (r: Vec<Span>)
    ensures
        spans_are(
            r@,
            status_bar_text(
                mode,
                match message {
                    Some(m) => Some(m@),
                    None => None,
                },
            ),
        ),
{
    let mut v: Vec<Span> = Vec::new();
    match mode {
        AppMode::Normal => match message {
            Some(msg) => {
                let mut t = " ".to_owned();
                t.append(msg.as_str());
                t.append("  ");
                let tone = if starts_with_error(msg.as_str()) {
                    Tone::Red
                } else {
                    Tone::Green
                };
                v.push(span(t, tone));
                v.push(span("│  ".to_owned(), Tone::DarkGray));
                v.push(span("[a] Add  [p] Pause/Resume  [d] Remove  [↑↓/jk] Nav  [q] Quit".to_owned(), Tone::White));
            },
            None => {
                let mut t = " ".to_owned();
                t.append("[a] Add  [p] Pause/Resume  [d] Remove  [↑↓/jk] Nav  [q] Quit");
                v.push(span(t, Tone::White));
            },
        },
        AppMode::AddDialog => match message {
            Some(msg) => {
                let mut t = " ".to_owned();
                t.append(msg.as_str());
                t.append("  ");
                v.push(span(t, Tone::Red));
                v.push(span("│  ".to_owned(), Tone::DarkGray));
                v.push(span("[Esc] Cancel".to_owned(), Tone::Yellow));
            },
            None => {
                v.push(
                    span(" Enter path or magnet link  [Enter] Add  [Esc] Cancel".to_owned(), Tone::Yellow),
                );
            },
        },
        AppMode::ConfirmRemove { delete_files, .. } => {
            let mut t = " Remove torrent? [Space] delete files: ".to_owned();
            t.append(delete_files_label(delete_files));
            t.append("  [Enter] Confirm  [Esc] Cancel");
            v.push(span(t, Tone::Red));
        },
    }
    v
}

/// The heading of the remove dialog, which numbers torrents from 1.
pub open spec fn remove_prompt_text(torrent_id: usize) -> Seq<char> {
    " Remove torrent #"@ + decimal((torrent_id + 1) as nat)
}

/// The heading of the remove dialog for a torrent.
pub fn remove_prompt(torrent_id: usize) -> (r: String)
    requires
        torrent_id < usize::MAX,
    ensures
        r@ == remove_prompt_text(torrent_id),
{
    let mut t = " Remove torrent #".to_owned();
    push_decimal(&mut t, (torrent_id + 1) as u64);
    t
}

/// The cells of a table row other than its name, status and progress bar:
/// the number (ids count from 1), size, speed and peers.
#[derive(Debug, Clone)]
pub struct RowCells {
    pub number: String,
    pub size: String,
    pub speed: String,
    pub peers: String,
}

/// The cells of the table row for `row`.
pub fn row_cells(row: &TorrentRow) -> (r: RowCells)
    requires
        row.id < usize::MAX,
    ensures
        r.number@ == " "@ + decimal((row.id + 1) as nat) + " "@,
        r.size@ == bytesize_text(row.total_bytes),
        r.speed@ == pad_left(bytesize_text(row.down_speed_bps) + "/s"@, 10, ' '),
        r.peers@ == decimal(row.peers_live as nat) + "/"@ + decimal(row.peers_seen as nat),
{
    let mut number = " ".to_owned();
    push_decimal(&mut number, (row.id + 1) as u64);
    number.append(" ");
    let mut peers = String::new();
    push_decimal(&mut peers, row.peers_live as u64);
    peers.append("/");
    push_decimal(&mut peers, row.peers_seen as u64);
    RowCells { number, size: format_size(row.total_bytes), speed: format_speed(row.down_speed_bps), peers }
}

/// The texts of the ratio-boost tab that depend on its state. The byte
/// totals are left as numbers.
#[derive(Debug, Clone)]
pub struct PanelText {
    pub title: String,
    pub client: String,
    pub client_hint: String,
    pub uploaded: u64,
    pub downloaded: u64,
    pub seeders: String,
    pub leechers: String,
    pub next_announce: String,
    pub running: bool,
    pub status_symbol: String,
    pub status_label: String,
    pub status_tone: Tone,
    pub error: Option<String>,
}

/// The panel's title for the chosen torrent's name.
pub open spec fn panel_title(name: Option<Seq<char>>) -> Seq<char> {
    " Ratio Boost — "@ + match name {
        Some(n) => n,
        None => "no torrent selected"@,
    } + " "@
}

/// A peer count, or a dash when the tracker gave none.
pub open spec fn count_text(n: Option<i64>) -> Seq<char> {
    match n {
        Some(v) => signed_decimal(v as int),
        None => "—"@,
    }
}

/// The client hint, which offers the next tracker when there is more than one.
pub open spec fn client_hint_text(tracker_count: nat) -> Seq<char> {
    "  [c] next client"@ + if tracker_count > 1 {
        "  [t] next tracker"@
    } else {
        Seq::empty()
    }
}

/// `t` is what the ratio-boost tab shows for `app` and the session's
/// snapshot (none when no session runs).
pub open spec fn is_panel_text(app: App, snapshot: Option<SpooferSnapshot>, t: PanelText) -> bool {
    let running = match snapshot {
        Some(s) => s.running,
        None => false,
    };
    &&& t.title@ == panel_title(
        match app.spoofer_torrent_name {
            Some(n) => Some(n@),
            None => None,
        },
    )
    &&& t.client@ == "[ "@ + label_of(app.chosen_client()) + " ]"@
    &&& t.client_hint@ == client_hint_text(app.spoofer_tracker_urls@.len())
    &&& t.running == running
    &&& t.status_symbol@ == (if running {
        " ● "@
    } else {
        " ○ "@
    })
    &&& t.status_label@ == (if running {
        "Running"@
    } else {
        "Stopped"@
    })
    &&& t.status_tone == (if running {
        Tone::Green
    } else {
        Tone::DarkGray
    })
    &&& match snapshot {
        Some(s) => {
            &&& t.uploaded == s.uploaded
            &&& t.downloaded == s.downloaded
            &&& t.seeders@ == count_text(s.seeders)
            &&& t.leechers@ == count_text(s.leechers)
            &&& t.next_announce@ == if s.running {
                countdown_text(s.countdown_secs)
            } else {
                "—"@
            }
            &&& match s.last_error {
                Some(e) => (t.error matches Some(m) && m@ == "  "@ + e@),
                None => t.error is None,
            }
        },
        None => {
            &&& t.uploaded == 0
            &&& t.downloaded == 0
            &&& t.seeders@ == "—"@
            &&& t.leechers@ == "—"@
            &&& t.next_announce@ == "—"@
            &&& t.error is None
        },
    }
}

/// A peer count's text.
fn count_cell(n: Option<i64>) -> (r: String)
    ensures
        r@ == count_text(n),
{
    match n {
        Some(v) => {
            let mut s = String::new();
            push_signed_decimal(&mut s, v);
            s
        },
        None => "—".to_owned(),
    }
}

/// The texts of the ratio-boost tab.
pub fn spoofer_panel_text(app: &App, snapshot: &Option<SpooferSnapshot>) -> (r: PanelText)
    ensures
        is_panel_text(*app, *snapshot, r),
{
    let mut title = " Ratio Boost — ".to_owned();
    match &app.spoofer_torrent_name {
        Some(n) => title.append(n.as_str()),
        None => title.append("no torrent selected"),
    }
    title.append(" ");
    let mut client = "[ ".to_owned();
    client.append(app.selected_spoofer_client().label());
    client.append(" ]");
    let mut client_hint = "  [c] next client".to_owned();
    if app.spoofer_tracker_urls.len() > 1 {
        client_hint.append("  [t] next tracker");
    } else {
        assert(client_hint@ + Seq::<char>::empty() =~= client_hint@);
    }
    let running = match snapshot {
        Some(s) => s.running,
        None => false,
    };
    let (status_symbol, status_label, status_tone) = if running {
        (" ● ".to_owned(), "Running".to_owned(), Tone::Green)
    } else {
        (" ○ ".to_owned(), "Stopped".to_owned(), Tone::DarkGray)
    };
    match snapshot {
        Some(s) => {
            let next_announce = if s.running {
                format_countdown(s.countdown_secs)
            } else {
                "—".to_owned()
            };
            let error = match &s.last_error {
                Some(e) => {
                    let mut m = "  ".to_owned();
                    m.append(e.as_str());
                    Some(m)
                },
                None => None,
            };
            PanelText {
                title,
                client,
                client_hint,
                uploaded: s.uploaded,
                downloaded: s.downloaded,
                seeders: count_cell(s.seeders),
                leechers: count_cell(s.leechers),
                next_announce,
                running: s.running,
                status_symbol,
                status_label,
                status_tone,
                error,
            }
        },
        None => PanelText {
            title,
            client,
            client_hint,
            uploaded: 0,
            downloaded: 0,
            seeders: "—".to_owned(),
            leechers: "—".to_owned(),
            next_announce: "—".to_owned(),
            running: false,
            status_symbol,
            status_label,
            status_tone,
            error: None,
        },
    }
}

} // verus!
