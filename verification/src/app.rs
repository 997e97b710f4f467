//! The state of the interface and the operations that the key handlers apply
//! to it.
//!
//! Each operation has a relation `is_<operation>(old, new, ..)` that says
//! exactly which fields change and how; the methods promise it, and the key
//! handlers are specified through it.
use crate::input::{is_cleared, InputState};
use crate::strings::string_clear;
use crate::types::{all_profiles, AppMode, AppView, ClientProfile, SpooferField, TorrentRow};
use crate::unicode::{byte_len, lemma_chars_within_offset, lemma_offset_ends, str_byte_len};
use vstd::prelude::*;

verus! {

/// What the ratio-boost tab takes from a torrent: its info hash in hex, its
/// size and the announce URLs of its trackers.
#[derive(Debug, Clone)]
pub struct TorrentMeta {
    pub info_hash_hex: String,
    pub total_bytes: u64,
    pub tracker_urls: Vec<String>,
}

/// The state of the interface.
///
/// Whether a ratio-boost session runs is kept as a flag; the session itself
/// belongs to the program that runs the event loop.
#[derive(Debug)]
pub struct App {
    pub torrents: Vec<TorrentRow>,
    pub selected: usize,
    pub view: AppView,
    pub mode: AppMode,
    pub add_input: InputState,
    pub status_message: Option<String>,
    pub should_quit: bool,
    pub spoofer_running: bool,
    pub spoofer_upload_input: InputState,
    pub spoofer_download_input: InputState,
    pub spoofer_tracker_input: InputState,
    pub spoofer_tracker_urls: Vec<String>,
    pub spoofer_tracker_idx: usize,
    pub spoofer_client_idx: usize,
    pub spoofer_focused_field: Option<SpooferField>,
    pub spoofer_info_hash: String,
    pub spoofer_total_bytes: u64,
    pub spoofer_torrent_name: Option<String>,
}

/// The byte length of every text of `texts` fits in a `usize` (as it does
/// for any text held in memory).
pub open spec fn texts_fit(texts: Seq<String>) -> bool {
    forall|i: int| 0 <= i < texts.len() ==> byte_len(#[trigger] texts[i]@) <= usize::MAX
}

/// The first row with the given id.
pub open spec fn first_with_id(rows: Seq<TorrentRow>, id: usize) -> Option<TorrentRow>
    decreases rows.len(),
{
    if rows.len() == 0 {
        None
    } else if rows[0].id == id {
        Some(rows[0])
    } else {
        first_with_id(rows.drop_first(), id)
    }
}

/// The selection once the list holds `len` rows: kept when still in the
/// list, the last row when past the end, and 0 for an empty list.
pub open spec fn clamped_selection(selected: usize, len: nat) -> usize {
    if len == 0 {
        0
    } else if selected >= len {
        (len - 1) as usize
    } else {
        selected
    }
}

/// The remove dialog with its "delete files" flag flipped; other modes as they are.
pub open spec fn toggled_delete(mode: AppMode) -> AppMode {
    match mode {
        AppMode::ConfirmRemove { torrent_id, delete_files } => AppMode::ConfirmRemove {
            torrent_id,
            delete_files: !delete_files,
        },
        _ => mode,
    }
}

/// The other tab.
pub open spec fn other_view(v: AppView) -> AppView {
    match v {
        AppView::Downloader => AppView::Spoofer,
        AppView::Spoofer => AppView::Downloader,
    }
}

impl App {
    /// Every input field has its cursor on a character boundary, and every
    /// text that the operations measure fits in a `usize`.
    pub open spec fn wf(self) -> bool {
        &&& self.add_input.ok()
        &&& self.spoofer_upload_input.ok()
        &&& self.spoofer_download_input.ok()
        &&& self.spoofer_tracker_input.ok()
        &&& texts_fit(self.spoofer_tracker_urls@)
    }

    /// The id of the selected torrent, if the selection lies in the list.
    pub open spec fn selected_id(self) -> Option<usize> {
        if self.selected < self.torrents@.len() {
            Some(self.torrents@[self.selected as int].id)
        } else {
            None
        }
    }

    /// The client profile that the ratio-boost tab has chosen.
    pub open spec fn chosen_client(self) -> ClientProfile {
        all_profiles()[(self.spoofer_client_idx as int) % (all_profiles().len() as int)]
    }
}

/// `new` is `old` after `update_torrents(rows)`.
pub open spec fn is_update_torrents(old: App, new: App, rows: Seq<TorrentRow>) -> bool {
    &&& new.torrents@ == rows
    &&& new == (App {
        torrents: new.torrents,
        selected: clamped_selection(old.selected, rows.len()),
        ..old
    })
}

/// `new` is `old` after `select_next()`: one row down, unless at the last row.
pub open spec fn is_select_next(old: App, new: App) -> bool {
    new == (App {
        selected: if old.selected + 1 < old.torrents@.len() {
            (old.selected + 1) as usize
        } else {
            old.selected
        },
        ..old
    })
}

/// `new` is `old` after `select_prev()`: one row up, unless at the first row.
pub open spec fn is_select_prev(old: App, new: App) -> bool {
    new == (App {
        selected: if old.selected > 0 {
            (old.selected - 1) as usize
        } else {
            old.selected
        },
        ..old
    })
}

/// `new` is `old` after `open_add_dialog()`.
pub open spec fn is_open_add_dialog(old: App, new: App) -> bool {
    &&& is_cleared(new.add_input)
    &&& new == (App {
        add_input: new.add_input,
        status_message: None,
        mode: AppMode::AddDialog,
        ..old
    })
}

/// `new` is `old` after `open_confirm_remove()`.
pub open spec fn is_open_confirm_remove(old: App, new: App) -> bool {
    new == match old.selected_id() {
        Some(id) => App { mode: AppMode::ConfirmRemove { torrent_id: id, delete_files: false }, ..old },
        None => old,
    }
}

/// `new` is `old` after `toggle_delete_files()`.
pub open spec fn is_toggle_delete_files(old: App, new: App) -> bool {
    new == (App { mode: toggled_delete(old.mode), ..old })
}

/// `new` is `old` after `dismiss_dialog()`.
pub open spec fn is_dismiss_dialog(old: App, new: App) -> bool {
    new == (App { mode: AppMode::Normal, ..old })
}

/// `new` is `old` after `toggle_view()`.
pub open spec fn is_toggle_view(old: App, new: App) -> bool {
    new == (App { view: other_view(old.view), ..old })
}

/// `new` is `old` after `cycle_spoofer_tracker()`: the next known tracker
/// URL, wrapping around, is chosen and copied into the tracker field with
/// the cursor at its end.
pub open spec fn is_cycle_spoofer_tracker(old: App, new: App) -> bool {
    let n = old.spoofer_tracker_urls@.len();
    if n == 0 {
        new == old
    } else {
        let idx = ((old.spoofer_tracker_idx + 1) % (n as int)) as usize;
        let url = old.spoofer_tracker_urls@[idx as int];
        &&& new.spoofer_tracker_input.value == url
        &&& new.spoofer_tracker_input.cursor == byte_len(url@)
        &&& new == (App {
            spoofer_tracker_idx: idx,
            spoofer_tracker_input: new.spoofer_tracker_input,
            ..old
        })
    }
}

/// `new` is `old` after `cycle_spoofer_client()`.
pub open spec fn is_cycle_spoofer_client(old: App, new: App) -> bool {
    new == (App {
        spoofer_client_idx: ((old.spoofer_client_idx + 1) % (all_profiles().len() as int)) as usize,
        ..old
    })
}

/// `new` is `old` after `enter_spoofer_view(torrent_id, meta)`: the fields of
/// the ratio-boost tab are reset, filled from `meta` when given, the tracker
/// field holds the first known tracker URL, and the tab is shown.
pub open spec fn is_enter_spoofer_view(
    old: App,
    new: App,
    torrent_id: Option<usize>,
    meta: Option<TorrentMeta>,
) -> bool {
    &&& is_cleared(new.spoofer_upload_input)
    &&& is_cleared(new.spoofer_download_input)
    &&& new.spoofer_torrent_name == match torrent_id {
        Some(id) => match first_with_id(old.torrents@, id) {
            Some(row) => Some(row.name),
            None => None,
        },
        None => None,
    }
    &&& match meta {
        Some(m) => {
            &&& new.spoofer_info_hash == m.info_hash_hex
            &&& new.spoofer_total_bytes == m.total_bytes
            &&& new.spoofer_tracker_urls@ == m.tracker_urls@
        },
        None => {
            &&& new.spoofer_info_hash@ == Seq::<char>::empty()
            &&& new.spoofer_total_bytes == 0
            &&& new.spoofer_tracker_urls@ == Seq::<String>::empty()
        },
    }
    &&& if new.spoofer_tracker_urls@.len() > 0 {
        &&& new.spoofer_tracker_input.value == new.spoofer_tracker_urls@[0]
        &&& new.spoofer_tracker_input.cursor == byte_len(new.spoofer_tracker_urls@[0]@)
    } else {
        is_cleared(new.spoofer_tracker_input)
    }
    &&& new == (App {
        spoofer_upload_input: new.spoofer_upload_input,
        spoofer_download_input: new.spoofer_download_input,
        spoofer_tracker_input: new.spoofer_tracker_input,
        spoofer_tracker_urls: new.spoofer_tracker_urls,
        spoofer_tracker_idx: 0,
        spoofer_focused_field: None,
        spoofer_torrent_name: new.spoofer_torrent_name,
        spoofer_info_hash: new.spoofer_info_hash,
        spoofer_total_bytes: new.spoofer_total_bytes,
        view: AppView::Spoofer,
        ..old
    })
}

/// Sets `input` to hold `text` with the cursor at its end.
fn fill_input(input: &mut InputState, text: String)
    requires
        byte_len(text@) <= usize::MAX,
    ensures
        final(input).value == text,
        final(input).cursor == byte_len(text@),
        final(input).ok(),
{
    let n = str_byte_len(text.as_str());
    input.value = text;
    input.cursor = n;
    proof {
        lemma_offset_ends(input.value@);
        lemma_chars_within_offset(input.value@, input.value@.len() as int);
    }
}

impl App {
    /// A fresh interface: no torrents, the downloader tab without a dialog,
    /// empty fields, no session.
    pub fn new() -> (r: App)
        ensures
            r.torrents@ == Seq::<TorrentRow>::empty(),
            r.selected == 0,
            r.view == AppView::Downloader,
            r.mode == AppMode::Normal,
            is_cleared(r.add_input),
            r.status_message is None,
            !r.should_quit,
            !r.spoofer_running,
            is_cleared(r.spoofer_upload_input),
            is_cleared(r.spoofer_download_input),
            is_cleared(r.spoofer_tracker_input),
            r.spoofer_tracker_urls@ == Seq::<String>::empty(),
            r.spoofer_tracker_idx == 0,
            r.spoofer_client_idx == 0,
            r.spoofer_focused_field is None,
            r.spoofer_info_hash@ == Seq::<char>::empty(),
            r.spoofer_total_bytes == 0,
            r.spoofer_torrent_name is None,
            r.wf(),
    {
        proof {
            lemma_offset_ends(Seq::<char>::empty());
        }
        App {
            torrents: Vec::new(),
            selected: 0,
            view: AppView::Downloader,
            mode: AppMode::Normal,
            add_input: InputState::new(),
            status_message: None,
            should_quit: false,
            spoofer_running: false,
            spoofer_upload_input: InputState::new(),
            spoofer_download_input: InputState::new(),
            spoofer_tracker_input: InputState::new(),
            spoofer_tracker_urls: Vec::new(),
            spoofer_tracker_idx: 0,
            spoofer_client_idx: 0,
            spoofer_focused_field: None,
            spoofer_info_hash: String::new(),
            spoofer_total_bytes: 0,
            spoofer_torrent_name: None,
        }
    }

    /// Replaces the torrent list and keeps the selection inside it.
    pub fn update_torrents(&mut self, rows: Vec<TorrentRow>)
        ensures
            is_update_torrents(*old(self), *final(self), rows@),
    {
        self.torrents = rows;
        let n = self.torrents.len();
        if n > 0 && self.selected >= n {
            self.selected = n - 1;
        }
        if n == 0 {
            self.selected = 0;
        }
    }

    /// Moves the selection one row down, stopping at the last row.
    pub fn select_next(&mut self)
        ensures
            is_select_next(*old(self), *final(self)),
    {
        let n = self.torrents.len();
        if n == 0 {
            return;
        }
        if self.selected < n - 1 {
            self.selected = self.selected + 1;
        }
    }

    /// Moves the selection one row up, stopping at the first row.
    pub fn select_prev(&mut self)
        ensures
            is_select_prev(*old(self), *final(self)),
    {
        if self.selected > 0 {
            self.selected = self.selected - 1;
        }
    }

    /// The id of the selected torrent, if any.
    pub fn selected_torrent_id(&self) -> (r: Option<usize>)
        ensures
            r == self.selected_id(),
    {
        if self.selected < self.torrents.len() {
            Some(self.torrents[self.selected].id)
        } else {
            None
        }
    }

    /// Opens the add dialog with an empty field and no message.
    pub fn open_add_dialog(&mut self)
        ensures
            is_open_add_dialog(*old(self), *final(self)),
    {
        self.add_input.clear();
        self.status_message = None;
        self.mode = AppMode::AddDialog;
    }

    /// Opens the remove dialog for the selected torrent, keeping its files by
    /// default; does nothing without a selection.
    pub fn open_confirm_remove(&mut self)
        ensures
            is_open_confirm_remove(*old(self), *final(self)),
    {
        if let Some(id) = self.selected_torrent_id() {
            self.mode = AppMode::ConfirmRemove { torrent_id: id, delete_files: false };
        }
    }

    /// Flips the "delete files" flag of the remove dialog.
    pub fn toggle_delete_files(&mut self)
        ensures
            is_toggle_delete_files(*old(self), *final(self)),
    {
        if let AppMode::ConfirmRemove { torrent_id, delete_files } = self.mode {
            self.mode = AppMode::ConfirmRemove { torrent_id, delete_files: !delete_files };
        }
    }

    /// Closes any dialog.
    pub fn dismiss_dialog(&mut self)
        ensures
            is_dismiss_dialog(*old(self), *final(self)),
    {
        self.mode = AppMode::Normal;
    }

    /// The name of the first torrent with the given id.
    fn name_of(&self, id: usize) -> (r: Option<String>)
        ensures
            r == match first_with_id(self.torrents@, id) {
                Some(row) => Some(row.name),
                None => None,
            },
    {
        let mut i: usize = 0;
        assert(self.torrents@.skip(0) =~= self.torrents@);
        while i < self.torrents.len()
            invariant
                i <= self.torrents@.len(),
                first_with_id(self.torrents@, id) == first_with_id(self.torrents@.skip(i as int), id),
            decreases self.torrents@.len() - i,
        {
            assert(self.torrents@.skip(i as int)[0] == self.torrents@[i as int]);
            if self.torrents[i].id == id {
                return Some(self.torrents[i].name.clone());
            }
            assert(self.torrents@.skip(i as int).drop_first() =~= self.torrents@.skip(i + 1));
            i = i + 1;
        }
        assert(self.torrents@.skip(i as int).len() == 0);
        None
    }

    /// Switches to the ratio-boost tab, reset and filled from `meta` when given.
    pub fn enter_spoofer_view(&mut self, torrent_id: Option<usize>, meta: Option<TorrentMeta>)
        requires
            meta matches Some(m) ==> texts_fit(m.tracker_urls@),
        ensures
            is_enter_spoofer_view(*old(self), *final(self), torrent_id, meta),
            old(self).add_input.ok() ==> final(self).wf(),
    {
        self.spoofer_upload_input.clear();
        self.spoofer_download_input.clear();
        self.spoofer_tracker_input.clear();
        self.spoofer_tracker_urls.clear();
        self.spoofer_tracker_idx = 0;
        self.spoofer_focused_field = None;
        self.spoofer_torrent_name = match torrent_id {
            Some(id) => self.name_of(id),
            None => None,
        };
        match meta {
            Some(m) => {
                self.spoofer_info_hash = m.info_hash_hex;
                self.spoofer_total_bytes = m.total_bytes;
                self.spoofer_tracker_urls = m.tracker_urls;
            },
            None => {
                string_clear(&mut self.spoofer_info_hash);
                self.spoofer_total_bytes = 0;
            },
        }
        if self.spoofer_tracker_urls.len() > 0 {
            let url = self.spoofer_tracker_urls[0].clone();
            fill_input(&mut self.spoofer_tracker_input, url);
        }
        self.view = AppView::Spoofer;
    }

    /// Switches between the two tabs.
    pub fn toggle_view(&mut self)
        ensures
            is_toggle_view(*old(self), *final(self)),
    {
        self.view = match self.view {
            AppView::Downloader => AppView::Spoofer,
            AppView::Spoofer => AppView::Downloader,
        };
    }

    /// Chooses the next known tracker URL and copies it into the tracker field.
    pub fn cycle_spoofer_tracker(&mut self)
        requires
            texts_fit(old(self).spoofer_tracker_urls@),
        ensures
            is_cycle_spoofer_tracker(*old(self), *final(self)),
            old(self).spoofer_tracker_urls@.len() > 0 ==> final(self).spoofer_tracker_input.ok(),
            old(self).wf() ==> final(self).wf(),
    {
        let n = self.spoofer_tracker_urls.len();
        if n == 0 {
            return;
        }
        let idx = (self.spoofer_tracker_idx % n + 1) % n;
        proof {
            lemma_next_index(self.spoofer_tracker_idx as int, n as int);
        }
        self.spoofer_tracker_idx = idx;
        let url = self.spoofer_tracker_urls[idx].clone();
        fill_input(&mut self.spoofer_tracker_input, url);
    }

    /// Chooses the next client profile, wrapping around.
    pub fn cycle_spoofer_client(&mut self)
        ensures
            is_cycle_spoofer_client(*old(self), *final(self)),
    {
        let n = ClientProfile::all().len();
        proof {
            lemma_next_index(self.spoofer_client_idx as int, n as int);
        }
        self.spoofer_client_idx = (self.spoofer_client_idx % n + 1) % n;
    }

    /// The client profile that the ratio-boost tab has chosen.
    pub fn selected_spoofer_client(&self) -> (r: ClientProfile)
        ensures
            r == self.chosen_client(),
    {
        let all = ClientProfile::all();
        all[self.spoofer_client_idx % all.len()]
    }
}

impl Default for App {
    fn default() -> (r: App)
        ensures
            r.torrents@ == Seq::<TorrentRow>::empty(),
            r.selected == 0,
            r.view == AppView::Downloader,
            r.mode == AppMode::Normal,
            is_cleared(r.add_input),
            r.status_message is None,
            !r.should_quit,
            !r.spoofer_running,
            is_cleared(r.spoofer_upload_input),
            is_cleared(r.spoofer_download_input),
            is_cleared(r.spoofer_tracker_input),
            r.spoofer_tracker_urls@ == Seq::<String>::empty(),
            r.spoofer_tracker_idx == 0,
            r.spoofer_client_idx == 0,
            r.spoofer_focused_field is None,
            r.spoofer_info_hash@ == Seq::<char>::empty(),
            r.spoofer_total_bytes == 0,
            r.spoofer_torrent_name is None,
            r.wf(),
    {
        App::new()
    }
}

/// Stepping an index modulo `n` without overflow gives the same index as
/// adding one and reducing.
proof fn lemma_next_index(i: int, n: int)
    requires
        0 <= i,
        0 < n,
    ensures
        (i % n + 1) % n == (i + 1) % n,
        0 <= (i % n + 1) % n < n,
        i % n + 1 <= n,
{
    vstd::arithmetic::div_mod::lemma_add_mod_noop(i, 1, n);
    vstd::arithmetic::div_mod::lemma_add_mod_noop(i % n, 1, n);
    vstd::arithmetic::div_mod::lemma_mod_twice(i, n);
    vstd::arithmetic::div_mod::lemma_mod_bound(i, n);
    vstd::arithmetic::div_mod::lemma_mod_bound(i % n + 1, n);
}

/// Replacing the torrent list leaves the selection on a row of the new
/// list, or at 0 when the list is empty; so a torrent is selected exactly
/// when the list is not empty.
pub proof fn law_update_keeps_selection_in_list(old: App, new: App, rows: Seq<TorrentRow>)
    requires
        is_update_torrents(old, new, rows),
    ensures
        rows.len() > 0 ==> new.selected < rows.len(),
        rows.len() == 0 ==> new.selected == 0,
        new.selected_id() is Some <==> rows.len() > 0,
{
}

/// Moving the selection keeps it on a row when it was on one.
pub proof fn law_moves_keep_selection_in_list(old: App, new: App)
    requires
        old.selected < old.torrents@.len(),
        is_select_next(old, new) || is_select_prev(old, new),
    ensures
        new.selected < new.torrents@.len(),
        new.torrents == old.torrents,
{
}

/// Moving down and then up comes back to the same state, unless the
/// selection was on the last row (or past it), where moving down stops.
pub proof fn law_select_next_then_prev(a: App, b: App, c: App)
    requires
        a.torrents@.len() <= usize::MAX,
        a.selected + 1 < a.torrents@.len(),
        is_select_next(a, b),
        is_select_prev(b, c),
    ensures
        c == a,
{
}

/// Switching tabs twice comes back to the same state.
pub proof fn law_toggle_view_twice(a: App, b: App, c: App)
    requires
        is_toggle_view(a, b),
        is_toggle_view(b, c),
    ensures
        c == a,
{
}

/// Flipping the "delete files" flag twice comes back to the same state.
pub proof fn law_toggle_delete_files_twice(a: App, b: App, c: App)
    requires
        is_toggle_delete_files(a, b),
        is_toggle_delete_files(b, c),
    ensures
        c == a,
{
}

/// Cycling the client once per profile comes back to the same profile, and
/// each step picks a different one.
pub proof fn law_client_cycle_returns(a: App, b: App, c: App, d: App)
    requires
        is_cycle_spoofer_client(a, b),
        is_cycle_spoofer_client(b, c),
        is_cycle_spoofer_client(c, d),
    ensures
        d.chosen_client() == a.chosen_client(),
        b.chosen_client() != a.chosen_client(),
        c.chosen_client() != a.chosen_client(),
{
    let i = a.spoofer_client_idx as int;
    assert(all_profiles().len() == 3);
    vstd::arithmetic::div_mod::lemma_mod_bound(i, 3);
    vstd::arithmetic::div_mod::lemma_add_mod_noop(i, 1, 3);
    vstd::arithmetic::div_mod::lemma_add_mod_noop(b.spoofer_client_idx as int, 1, 3);
    vstd::arithmetic::div_mod::lemma_add_mod_noop(c.spoofer_client_idx as int, 1, 3);
    vstd::arithmetic::div_mod::lemma_mod_twice(i, 3);
    vstd::arithmetic::div_mod::lemma_mod_twice(i + 1, 3);
    vstd::arithmetic::div_mod::lemma_mod_twice(i + 2, 3);
    vstd::arithmetic::div_mod::lemma_add_mod_noop(i + 1, 1, 3);
    vstd::arithmetic::div_mod::lemma_add_mod_noop(i + 2, 1, 3);
    vstd::arithmetic::div_mod::lemma_mod_add_multiples_vanish(i, 3);
    assert(b.spoofer_client_idx as int == (i + 1) % 3);
    assert(c.spoofer_client_idx as int == (i + 2) % 3);
    assert(d.spoofer_client_idx as int == (i + 3) % 3);
}

/// Cycling trackers keeps the tracker field on one of the known URLs, with
/// the index of that URL in range.
pub proof fn law_cycle_tracker_picks_known_url(a: App, b: App)
    requires
        is_cycle_spoofer_tracker(a, b),
        a.spoofer_tracker_urls@.len() > 0,
    ensures
        b.spoofer_tracker_idx < a.spoofer_tracker_urls@.len(),
        b.spoofer_tracker_input.value == a.spoofer_tracker_urls@[b.spoofer_tracker_idx as int],
        b.spoofer_tracker_urls == a.spoofer_tracker_urls,
{
    vstd::arithmetic::div_mod::lemma_mod_bound(
        a.spoofer_tracker_idx + 1,
        a.spoofer_tracker_urls@.len() as int,
    );
}

} // verus!
