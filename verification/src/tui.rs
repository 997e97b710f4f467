//! Keys and what the interface does with them.
//!
//! Each handler takes the state and an event, changes the state as its
//! contract says and returns the action, if any, that the program around it
//! carries out (talking to the torrent engine, the clipboard or the tracker).
use crate::app::{
    first_with_id, is_cycle_spoofer_client, is_cycle_spoofer_tracker, is_dismiss_dialog,
    is_open_add_dialog, is_open_confirm_remove, is_select_next, is_select_prev,
    is_enter_spoofer_view, is_toggle_delete_files, is_toggle_view, texts_fit, App, TorrentMeta,
};
use crate::strings::{lemma_skip_back_bounds, lemma_skip_fwd_bounds, trim, trim_by, trim_char, trim_char_spec, trim_spec};
use crate::input::{
    is_backspace, is_delete_to_end, is_delete_to_start, is_delete_word_back,
    is_delete_word_forward, is_move_left, is_move_right, is_move_to_end, is_move_to_start,
    is_move_word_left, is_move_word_right, is_push,
};
use crate::input::InputState;
use crate::numbers::{is_digit, parse_u64_spec, parse_u64_str};
use crate::spoofer::random_u16;
use crate::types::{AppMode, AppView, SpooferField, TorrentRow};
use crate::unicode::{
    byte_len, chars_within, lemma_boundary_facts, lemma_chars_within, lemma_byte_len_subrange, lemma_chars_within_offset,
    lemma_offset_ends, str_byte_len, utf8_width,
};
use vstd::prelude::*;

verus! {

/// A key of the keyboard, as far as the interface tells keys apart.
#[derive(Debug, Clone, Copy, PartialEq, Eq, Structural)]
pub enum KeyCode {
    Backspace,
    Enter,
    Left,
    Right,
    Up,
    Down,
    Home,
    End,
    Delete,
    Esc,
    F(u8),
    Char(char),
    Other,
}

/// A key press: the key, and whether Control was held.
#[derive(Debug, Clone, Copy, PartialEq, Eq, Structural)]
pub struct KeyEvent {
    pub code: KeyCode,
    pub ctrl: bool,
}

/// What the terminal reports: a key press, pasted text, or anything else.
#[derive(Debug, Clone, PartialEq)]
pub enum Event {
    Key(KeyEvent),
    Paste(String),
    Other,
}

/// What the interface asks the program around it to do.
#[derive(Debug, PartialEq)]
pub enum Action {
    Quit,
    Pause(usize),
    Resume(usize),
    AddTorrent(String),
    Remove { id: usize, delete_files: bool },
    OpenSpoofer(usize),
    StartSpoofer { config: crate::spoofer::SpooferConfig },
    StopSpoofer,
    /// Put the text on the system clipboard.
    CopyToClipboard(String),
    /// Read the system clipboard and hand its text to `paste_into_add_dialog`.
    PasteFromClipboard,
}

/// A pasted or dropped path without surrounding white space, then without
/// surrounding single quotes, then without surrounding double quotes.
pub open spec fn clean_path_spec(s: Seq<char>) -> Seq<char> {
    trim_char_spec(trim_char_spec(trim_spec(s), '\''), '"')
}

/// Trimming never lengthens a text's encoding.
proof fn lemma_trim_by_fits(s: Seq<char>, p: spec_fn(char) -> bool)
    ensures
        byte_len(trim_by(s, p)) <= byte_len(s),
{
    let lo = crate::strings::skip_while_fwd(s, 0, s.len() as int, p);
    lemma_skip_fwd_bounds(s, 0, s.len() as int, p);
    lemma_skip_back_bounds(s, lo, s.len() as int, p);
    let hi = crate::strings::skip_while_back(s, lo, s.len() as int, p);
    lemma_byte_len_subrange(s, lo, hi);
}

/// A cleaned path takes no more bytes than the text it came from.
proof fn lemma_clean_path_fits(s: Seq<char>)
    ensures
        byte_len(clean_path_spec(s)) <= byte_len(s),
{
    lemma_trim_by_fits(s, crate::strings::white_space_pred());
    lemma_trim_by_fits(trim_spec(s), crate::strings::equal_pred('\''));
    lemma_trim_by_fits(trim_char_spec(trim_spec(s), '\''), crate::strings::equal_pred('"'));
}

/// A character that cleaning strips from the ends of a path.
pub open spec fn strippable(c: char) -> bool {
    crate::strings::is_white_space(c) || c == '\'' || c == '"'
}

/// Trimming by `p` leaves a text alone whose first and last characters do
/// not satisfy `p`.
proof fn lemma_trim_by_keeps(s: Seq<char>, p: spec_fn(char) -> bool)
    requires
        s.len() > 0,
        !p(s[0]),
        !p(s.last()),
    ensures
        trim_by(s, p) == s,
{
    let n = s.len() as int;
    assert(crate::strings::skip_while_fwd(s, 0, n, p) == 0);
    assert(crate::strings::skip_while_back(s, 0, n, p) == n);
    assert(s.subrange(0, n) =~= s);
}

/// Trimming by `p` strips one character that satisfies `p` from each end of
/// a text whose inner part begins and ends with characters that do not.
proof fn lemma_trim_by_unwraps(t: Seq<char>, q: char, p: spec_fn(char) -> bool)
    requires
        t.len() > 0,
        p(q),
        !p(t[0]),
        !p(t.last()),
    ensures
        trim_by(seq![q] + t + seq![q], p) == t,
{
    let s = seq![q] + t + seq![q];
    let n = s.len() as int;
    assert(s[0] == q);
    assert(s[1] == t[0]);
    assert(s[n - 1] == q);
    assert(s[n - 2] == t.last());
    assert(crate::strings::skip_while_fwd(s, 1, n, p) == 1);
    assert(crate::strings::skip_while_fwd(s, 0, n, p) == 1);
    assert(crate::strings::skip_while_back(s, 1, n - 1, p) == n - 1);
    assert(crate::strings::skip_while_back(s, 1, n, p) == n - 1);
    assert(s.subrange(1, n - 1) =~= t);
}

/// Dropped paths come back as they were: a path that neither begins nor
/// ends with white space or a quote is returned unchanged by cleaning, and
/// so is the same path wrapped in single or double quotes.
pub proof fn law_clean_path_unwraps(path: Seq<char>, q: char)
    requires
        path.len() > 0,
        !strippable(path[0]),
        !strippable(path.last()),
        q == '\'' || q == '"',
    ensures
        clean_path_spec(path) == path,
        clean_path_spec(seq![q] + path + seq![q]) == path,
{
    let ws = crate::strings::white_space_pred();
    let sq = crate::strings::equal_pred('\'');
    let dq = crate::strings::equal_pred('"');
    lemma_trim_by_keeps(path, ws);
    lemma_trim_by_keeps(path, sq);
    lemma_trim_by_keeps(path, dq);
    let w = seq![q] + path + seq![q];
    assert(w[0] == q);
    assert(w.last() == q);
    assert(!crate::strings::is_white_space(q));
    lemma_trim_by_keeps(w, ws);
    if q == '\'' {
        lemma_trim_by_unwraps(path, q, sq);
    } else {
        lemma_trim_by_keeps(w, sq);
        lemma_trim_by_unwraps(path, q, dq);
    }
}

/// Strips surrounding white space and quotes from a pasted or dropped path.
pub fn clean_path(s: &str) -> (r: String)
    ensures
        r@ == clean_path_spec(s@),
{
    let t = trim(s);
    let t = trim_char(t.as_str(), '\'');
    trim_char(t.as_str(), '"')
}

/// `new` is `old` after the add dialog received `text` as a paste.
pub open spec fn is_paste(old: App, new: App, text: Seq<char>) -> bool {
    &&& new.add_input.value@ == clean_path_spec(text)
    &&& new.add_input.cursor == byte_len(clean_path_spec(text))
    &&& new == (App { add_input: new.add_input, status_message: None, ..old })
}

/// Replaces the add dialog's text with the cleaned-up `text`, cursor at
/// the end, and clears the status message: what a paste or a drop does.
pub fn paste_into_add_dialog(app: &mut App, text: &str)
    requires
        byte_len(text@) <= usize::MAX,
    ensures
        is_paste(*old(app), *final(app), text@),
        final(app).add_input.ok(),
        old(app).wf() ==> final(app).wf(),
{
    let path = clean_path(text);
    proof {
        lemma_clean_path_fits(text@);
    }
    let n = str_byte_len(path.as_str());
    app.add_input.value = path;
    app.add_input.cursor = n;
    app.status_message = None;
    proof {
        lemma_offset_ends(app.add_input.value@);
        lemma_chars_within_offset(app.add_input.value@, app.add_input.value@.len() as int);
    }
}

/// Whether the first torrent with id `id` is paused.
pub open spec fn is_paused_id(rows: Seq<TorrentRow>, id: usize) -> bool {
    match first_with_id(rows, id) {
        Some(row) => row.status is Paused,
        None => false,
    }
}

/// Whether the first row with id `id` in `rows` is paused.
fn paused_by_id(rows: &Vec<TorrentRow>, id: usize) -> (r: bool)
    ensures
        r == is_paused_id(rows@, id),
{
    let mut i: usize = 0;
    assert(rows@.skip(0) =~= rows@);
    while i < rows.len()
        invariant
            i <= rows@.len(),
            first_with_id(rows@, id) == first_with_id(rows@.skip(i as int), id),
        decreases rows@.len() - i,
    {
        assert(rows@.skip(i as int)[0] == rows@[i as int]);
        if rows[i].id == id {
            return rows[i].status.is_paused();
        }
        assert(rows@.skip(i as int).drop_first() =~= rows@.skip(i + 1));
        i = i + 1;
    }
    false
}

/// The answer of the downloader tab without a dialog to a key.
pub open spec fn normal_key_post(old: App, new: App, k: KeyEvent, r: Option<Action>) -> bool {
    let c = k.code;
    if c == KeyCode::Char('q') || (c == KeyCode::Char('c') && k.ctrl) {
        r == Some(Action::Quit) && new == old
    } else if c == KeyCode::Char('a') {
        r is None && is_open_add_dialog(old, new)
    } else if c == KeyCode::Char('p') {
        &&& new == old
        &&& r == match old.selected_id() {
            Some(id) => Some(
                if is_paused_id(old.torrents@, id) {
                    Action::Resume(id)
                } else {
                    Action::Pause(id)
                },
            ),
            None => None,
        }
    } else if c == KeyCode::Char('d') {
        r is None && is_open_confirm_remove(old, new)
    } else if c == KeyCode::Char('b') {
        &&& new == old
        &&& r == match old.selected_id() {
            Some(id) => Some(Action::OpenSpoofer(id)),
            None => None,
        }
    } else if c == KeyCode::Down || c == KeyCode::Char('j') {
        r is None && is_select_next(old, new)
    } else if c == KeyCode::Up || c == KeyCode::Char('k') {
        r is None && is_select_prev(old, new)
    } else if c == KeyCode::Left || c == KeyCode::Right {
        r is None && is_toggle_view(old, new)
    } else {
        r is None && new == old
    }
}

/// The answer of the downloader tab without a dialog to an event: keys as
/// `normal_key_post` says, anything else ignored.
pub open spec fn normal_post(old: App, new: App, event: Event, r: Option<Action>) -> bool {
    match event {
        Event::Key(k) => normal_key_post(old, new, k, r),
        _ => r is None && new == old,
    }
}

/// Handles an event in the downloader tab when no dialog is open: quit,
/// add, pause or resume, remove, open the ratio-boost tab for the selected
/// torrent, move the selection, switch tabs.
pub fn key_normal(app: &mut App, event: Event) -> (r: Option<Action>)
    ensures
        normal_post(*old(app), *final(app), event, r),
{
    if let Event::Key(key) = event {
        match key.code {
            KeyCode::Char('q') => {
                return Some(Action::Quit);
            },
            KeyCode::Char('c') if key.ctrl => {
                return Some(Action::Quit);
            },
            KeyCode::Char('a') => app.open_add_dialog(),
            KeyCode::Char('p') => {
                if let Some(id) = app.selected_torrent_id() {
                    let is_paused = paused_by_id(&app.torrents, id);
                    return Some(
                        if is_paused {
                            Action::Resume(id)
                        } else {
                            Action::Pause(id)
                        },
                    );
                }
            },
            KeyCode::Char('d') => app.open_confirm_remove(),
            KeyCode::Char('b') => {
                if let Some(id) = app.selected_torrent_id() {
                    return Some(Action::OpenSpoofer(id));
                }
            },
            KeyCode::Down | KeyCode::Char('j') => app.select_next(),
            KeyCode::Up | KeyCode::Char('k') => app.select_prev(),
            KeyCode::Left | KeyCode::Right => app.toggle_view(),
            _ => {},
        }
    }
    None
}

/// The answer of the remove dialog for torrent `torrent_id` to an event.
pub open spec fn confirm_remove_post(
    old: App,
    new: App,
    event: Event,
    torrent_id: usize,
    delete_files: bool,
    r: Option<Action>,
) -> bool {
    match event {
        Event::Key(k) => if k.code == KeyCode::Esc {
            r is None && is_dismiss_dialog(old, new)
        } else if k.code == KeyCode::Char(' ') {
            r is None && is_toggle_delete_files(old, new)
        } else if k.code == KeyCode::Enter {
            r == Some(Action::Remove { id: torrent_id, delete_files }) && is_dismiss_dialog(old, new)
        } else {
            r is None && new == old
        },
        _ => r is None && new == old,
    }
}

/// Handles an event in the remove dialog: Esc cancels, Space flips the
/// "delete files" flag, Enter closes the dialog and asks for the removal.
pub fn key_confirm_remove(app: &mut App, event: Event, torrent_id: usize, delete_files: bool) -> (r:
    Option<Action>)
    ensures
        confirm_remove_post(*old(app), *final(app), event, torrent_id, delete_files, r),
{
    if let Event::Key(key) = event {
        match key.code {
            KeyCode::Esc => app.dismiss_dialog(),
            KeyCode::Char(' ') => app.toggle_delete_files(),
            KeyCode::Enter => {
                app.dismiss_dialog();
                return Some(Action::Remove { id: torrent_id, delete_files });
            },
            _ => {},
        }
    }
    None
}

/// `new` is `old` with only the add dialog's field changed, and the status
/// message cleared when `clear_status` holds.
pub open spec fn add_input_edited(old: App, new: App, clear_status: bool) -> bool {
    new == (App {
        add_input: new.add_input,
        status_message: if clear_status {
            None
        } else {
            old.status_message
        },
        ..old
    })
}

/// The add dialog's answer to a key: clipboard requests, cancel, confirm,
/// cursor motions and readline-style editing of the field.
pub open spec fn add_dialog_key_post(old: App, new: App, k: KeyEvent, r: Option<Action>) -> bool {
    let c = k.code;
    let ctrl = k.ctrl;
    let a = old.add_input;
    let b = new.add_input;
    if c == KeyCode::Char('c') && ctrl {
        r == Some(Action::CopyToClipboard(a.value)) && new == old
    } else if c == KeyCode::Char('v') && ctrl {
        r == Some(Action::PasteFromClipboard) && new == old
    } else if c == KeyCode::Esc {
        r is None && new == (App { status_message: None, mode: AppMode::Normal, ..old })
    } else if c == KeyCode::Enter {
        let path = clean_path_spec(a.value@);
        if path.len() > 0 {
            &&& (r matches Some(Action::AddTorrent(p)) && p@ == path)
            &&& new == (App { status_message: None, ..old })
        } else {
            r is None && new == old
        }
    } else if c == KeyCode::Left && ctrl {
        r is None && add_input_edited(old, new, false) && is_move_word_left(a, b)
    } else if c == KeyCode::Right && ctrl {
        r is None && add_input_edited(old, new, false) && is_move_word_right(a, b)
    } else if c == KeyCode::Left {
        r is None && add_input_edited(old, new, false) && is_move_left(a, b)
    } else if c == KeyCode::Right {
        r is None && add_input_edited(old, new, false) && is_move_right(a, b)
    } else if c == KeyCode::Home || (c == KeyCode::Char('a') && ctrl) {
        r is None && add_input_edited(old, new, false) && is_move_to_start(a, b)
    } else if c == KeyCode::End || (c == KeyCode::Char('e') && ctrl) {
        r is None && add_input_edited(old, new, false) && is_move_to_end(a, b)
    } else if (c == KeyCode::Backspace || c == KeyCode::Char('w')) && ctrl {
        r is None && add_input_edited(old, new, true) && is_delete_word_back(a, b)
    } else if c == KeyCode::Delete && ctrl {
        r is None && add_input_edited(old, new, true) && is_delete_word_forward(a, b)
    } else if c == KeyCode::Char('k') && ctrl {
        r is None && add_input_edited(old, new, true) && is_delete_to_end(a, b)
    } else if c == KeyCode::Char('u') && ctrl {
        r is None && add_input_edited(old, new, true) && is_delete_to_start(a, b)
    } else if c == KeyCode::Backspace {
        r is None && add_input_edited(old, new, true) && is_backspace(a, b)
    } else if c is Char {
        r is None && add_input_edited(old, new, true) && is_push(a, b, c->Char_0)
    } else {
        r is None && new == old
    }
}

/// The add dialog's answer to an event: a paste replaces the field, keys as
/// `add_dialog_key_post` says, anything else is ignored.
pub open spec fn add_dialog_post(old: App, new: App, event: Event, r: Option<Action>) -> bool {
    match event {
        Event::Paste(text) => r is None && is_paste(old, new, text@),
        Event::Key(k) => add_dialog_key_post(old, new, k, r),
        Event::Other => r is None && new == old,
    }
}

/// A Control chord that the add dialog reads as a command rather than as
/// a typed character.
pub open spec fn is_add_dialog_command(c: char) -> bool {
    c == 'c' || c == 'v' || c == 'a' || c == 'e' || c == 'w' || c == 'k' || c == 'u'
}

/// The texts that an event brings into the add dialog fit in memory: the
/// pasted text, or the field with one more character typed (commands type
/// nothing).
pub open spec fn add_event_fits(app: App, event: Event) -> bool {
    match event {
        Event::Paste(text) => byte_len(text@) <= usize::MAX,
        Event::Key(k) => match k.code {
            KeyCode::Char(c) => (k.ctrl && is_add_dialog_command(c)) || byte_len(
                app.add_input.value@,
            ) + utf8_width(c) <= usize::MAX,
            _ => true,
        },
        Event::Other => true,
    }
}

/// Handles an event in the add dialog. Enter asks to add the cleaned-up
/// path or magnet link and leaves the dialog open until that succeeds;
/// Ctrl+C and Ctrl+V ask for the clipboard.
pub fn key_add_dialog(app: &mut App, event: Event) -> (r: Option<Action>)
    requires
        old(app).add_input.ok(),
        add_event_fits(*old(app), event),
    ensures
        add_dialog_post(*old(app), *final(app), event, r),
        final(app).add_input.ok(),
        old(app).wf() ==> final(app).wf(),
{
    match event {
        Event::Paste(text) => {
            paste_into_add_dialog(app, text.as_str());
        },
        Event::Key(key) => {
            proof {
                lemma_boundary_facts(app.add_input.value@, app.add_input.cursor as int);
            }
            match key.code {
                KeyCode::Char('c') if key.ctrl => {
                    return Some(Action::CopyToClipboard(app.add_input.value.clone()));
                },
                KeyCode::Char('v') if key.ctrl => {
                    return Some(Action::PasteFromClipboard);
                },
                KeyCode::Esc => {
                    app.status_message = None;
                    app.dismiss_dialog();
                },
                KeyCode::Enter => {
                    let input = clean_path(app.add_input.value.as_str());
                    if !input.as_str().is_empty() {
                        app.status_message = None;
                        return Some(Action::AddTorrent(input));
                    }
                },
                KeyCode::Left if key.ctrl => {
                    app.add_input.move_word_left();
                },
                KeyCode::Right if key.ctrl => {
                    app.add_input.move_word_right();
                },
                KeyCode::Left => app.add_input.move_left(),
                KeyCode::Right => app.add_input.move_right(),
                KeyCode::Home => {
                    app.add_input.move_to_start();
                },
                KeyCode::End => {
                    app.add_input.move_to_end();
                },
                KeyCode::Char('a') if key.ctrl => {
                    app.add_input.move_to_start();
                },
                KeyCode::Char('e') if key.ctrl => {
                    app.add_input.move_to_end();
                },
                KeyCode::Backspace if key.ctrl => {
                    app.status_message = None;
                    app.add_input.delete_word_back();
                },
                KeyCode::Char('w') if key.ctrl => {
                    app.status_message = None;
                    app.add_input.delete_word_back();
                },
                KeyCode::Delete if key.ctrl => {
                    app.status_message = None;
                    app.add_input.delete_word_forward();
                },
                KeyCode::Char('k') if key.ctrl => {
                    app.status_message = None;
                    app.add_input.delete_to_end();
                },
                KeyCode::Char('u') if key.ctrl => {
                    app.status_message = None;
                    app.add_input.delete_to_start();
                },
                KeyCode::Backspace => {
                    app.status_message = None;
                    app.add_input.backspace();
                },
                KeyCode::Char(c) => {
                    app.status_message = None;
                    app.add_input.push(c);
                },
                _ => {},
            }
        },
        Event::Other => {},
    }
    None
}

/// The input field of the ratio-boost tab for `f`.
pub open spec fn field_of(app: App, f: SpooferField) -> InputState {
    match f {
        SpooferField::UploadRate => app.spoofer_upload_input,
        SpooferField::DownloadRate => app.spoofer_download_input,
        SpooferField::TrackerUrl => app.spoofer_tracker_input,
    }
}

/// `app` with the input field for `f` replaced by `input`.
pub open spec fn with_field(app: App, f: SpooferField, input: InputState) -> App {
    match f {
        SpooferField::UploadRate => App { spoofer_upload_input: input, ..app },
        SpooferField::DownloadRate => App { spoofer_download_input: input, ..app },
        SpooferField::TrackerUrl => App { spoofer_tracker_input: input, ..app },
    }
}

/// An edit of the focused field of the ratio-boost tab.
#[derive(Debug, Clone, Copy, PartialEq, Eq, Structural)]
pub enum FieldEdit {
    Left,
    Right,
    Home,
    End,
    Backspace,
    Push(char),
}

/// `b` is `a` after the edit `e`.
pub open spec fn is_edit(e: FieldEdit, a: InputState, b: InputState) -> bool {
    match e {
        FieldEdit::Left => is_move_left(a, b),
        FieldEdit::Right => is_move_right(a, b),
        FieldEdit::Home => is_move_to_start(a, b),
        FieldEdit::End => is_move_to_end(a, b),
        FieldEdit::Backspace => is_backspace(a, b),
        FieldEdit::Push(c) => is_push(a, b, c),
    }
}

/// `new` is `old` with only the field for `f` changed, by the edit `e`.
pub open spec fn is_field_edit(old: App, new: App, f: SpooferField, e: FieldEdit) -> bool {
    &&& new == with_field(old, f, field_of(new, f))
    &&& is_edit(e, field_of(old, f), field_of(new, f))
}

/// A typed character fits in `input`.
pub open spec fn edit_fits(input: InputState, e: FieldEdit) -> bool {
    match e {
        FieldEdit::Push(c) => byte_len(input.value@) + utf8_width(c) <= usize::MAX,
        _ => true,
    }
}

/// Applies an edit to an input field.
fn apply_edit(input: &mut InputState, e: FieldEdit)
    requires
        old(input).ok(),
        edit_fits(*old(input), e),
    ensures
        is_edit(e, *old(input), *final(input)),
        final(input).ok(),
{
    proof {
        lemma_boundary_facts(input.value@, input.cursor as int);
    }
    match e {
        FieldEdit::Left => input.move_left(),
        FieldEdit::Right => input.move_right(),
        FieldEdit::Home => input.move_to_start(),
        FieldEdit::End => input.move_to_end(),
        FieldEdit::Backspace => input.backspace(),
        FieldEdit::Push(c) => input.push(c),
    }
}

/// The input fields of the ratio-boost tab have their cursors on character
/// boundaries, and its known tracker URLs fit in memory.
pub open spec fn spoofer_fields_ok(app: App) -> bool {
    &&& app.spoofer_upload_input.ok()
    &&& app.spoofer_download_input.ok()
    &&& app.spoofer_tracker_input.ok()
    &&& texts_fit(app.spoofer_tracker_urls@)
}

/// Applies an edit to the field for `f`.
fn edit_field(app: &mut App, f: SpooferField, e: FieldEdit)
    requires
        spoofer_fields_ok(*old(app)),
        edit_fits(field_of(*old(app), f), e),
    ensures
        is_field_edit(*old(app), *final(app), f, e),
        spoofer_fields_ok(*final(app)),
{
    match f {
        SpooferField::UploadRate => apply_edit(&mut app.spoofer_upload_input, e),
        SpooferField::DownloadRate => apply_edit(&mut app.spoofer_download_input, e),
        SpooferField::TrackerUrl => apply_edit(&mut app.spoofer_tracker_input, e),
    }
}

/// The focus after Down: the next field, and none after the last.
pub open spec fn next_field(f: Option<SpooferField>) -> Option<SpooferField> {
    match f {
        None => Some(SpooferField::UploadRate),
        Some(SpooferField::UploadRate) => Some(SpooferField::DownloadRate),
        Some(SpooferField::DownloadRate) => Some(SpooferField::TrackerUrl),
        Some(SpooferField::TrackerUrl) => None,
    }
}

/// The focus after Up: the previous field, and none before the first.
pub open spec fn prev_field(f: Option<SpooferField>) -> Option<SpooferField> {
    match f {
        None => Some(SpooferField::TrackerUrl),
        Some(SpooferField::UploadRate) => None,
        Some(SpooferField::DownloadRate) => Some(SpooferField::UploadRate),
        Some(SpooferField::TrackerUrl) => Some(SpooferField::DownloadRate),
    }
}

/// The rate fields take digits only; the tracker field takes any character.
pub open spec fn accepts(f: SpooferField, c: char) -> bool {
    match f {
        SpooferField::TrackerUrl => true,
        _ => is_digit(c),
    }
}

/// Whether the field for `f` takes the character `c`.
fn field_accepts(f: SpooferField, c: char) -> (r: bool)
    ensures
        r == accepts(f, c),
{
    match f {
        SpooferField::TrackerUrl => true,
        _ => {
            let v = c as u32;
            48 <= v && v <= 57
        },
    }
}

/// The rate in KB/s that a rate field holds: its trimmed text read as a
/// number, and 0 when that fails.
pub open spec fn rate_of(input: InputState) -> u64 {
    match parse_u64_spec(trim_spec(input.value@)) {
        Some(v) => v,
        None => 0,
    }
}

/// KB/s in bytes per second, saturating at `u64::MAX`.
pub open spec fn kbps_to_bps(kbps: u64) -> u64 {
    if kbps * 1024 > u64::MAX {
        u64::MAX
    } else {
        (kbps * 1024) as u64
    }
}

/// The listening port announced for a random `seed`: from 10000 to 65534.
pub open spec fn port_for(seed: u16) -> u16 {
    (10000 + seed % 55535) as u16
}

/// The ratio-boost tab has what a session needs: a tracker URL that is not
/// blank and an info hash.
pub open spec fn spoofer_ready(app: App) -> bool {
    trim_spec(app.spoofer_tracker_input.value@).len() > 0 && app.spoofer_info_hash@.len() > 0
}

/// The message shown when the session cannot start.
pub open spec fn missing_inputs_message() -> Seq<char> {
    "Error: tracker URL and torrent info hash are required."@
}

/// `c` is the session configuration that the tab describes, announcing the
/// port that `seed` gives. Without a download rate the session reports the
/// whole torrent as downloaded from the start.
pub open spec fn is_start_config(app: App, seed: u16, c: crate::spoofer::SpooferConfig) -> bool {
    let up = rate_of(app.spoofer_upload_input);
    let down = rate_of(app.spoofer_download_input);
    &&& c.tracker_url@ == trim_spec(app.spoofer_tracker_input.value@)
    &&& c.info_hash_hex == app.spoofer_info_hash
    &&& c.total_bytes == app.spoofer_total_bytes
    &&& c.upload_rate_bps == kbps_to_bps(up)
    &&& c.download_rate_bps == kbps_to_bps(down)
    &&& c.initial_uploaded == 0
    &&& c.initial_downloaded == (if down == 0 {
        app.spoofer_total_bytes
    } else {
        0
    })
    &&& c.client == app.chosen_client()
    &&& c.port == port_for(seed)
}

/// Reads a rate field.
fn read_rate(input: &InputState) -> (r: u64)
    ensures
        r == rate_of(*input),
{
    let t = trim(input.value.as_str());
    match parse_u64_str(t.as_str()) {
        Some(v) => v,
        None => 0,
    }
}

/// KB/s in bytes per second, saturating.
fn kib_per_sec(kbps: u64) -> (r: u64)
    ensures
        r == kbps_to_bps(kbps),
{
    if kbps > u64::MAX / 1024 {
        u64::MAX
    } else {
        kbps * 1024
    }
}

/// Whether the ratio-boost tab has a tracker URL and an info hash.
pub fn spoofer_inputs_ready(app: &App) -> (r: bool)
    ensures
        r == spoofer_ready(*app),
{
    let t = trim(app.spoofer_tracker_input.value.as_str());
    !t.as_str().is_empty() && !app.spoofer_info_hash.as_str().is_empty()
}

/// The session configuration that the ratio-boost tab describes, announcing
/// the port that `port_seed` gives.
pub fn start_config(app: &App, port_seed: u16) -> (c: crate::spoofer::SpooferConfig)
    ensures
        is_start_config(*app, port_seed, c),
{
    let upload_kbps = read_rate(&app.spoofer_upload_input);
    let download_kbps = read_rate(&app.spoofer_download_input);
    let tracker_url = trim(app.spoofer_tracker_input.value.as_str());
    let port: u16 = 10000 + port_seed % 55535;
    crate::spoofer::SpooferConfig {
        tracker_url,
        info_hash_hex: app.spoofer_info_hash.clone(),
        total_bytes: app.spoofer_total_bytes,
        upload_rate_bps: kib_per_sec(upload_kbps),
        download_rate_bps: kib_per_sec(download_kbps),
        initial_uploaded: 0,
        initial_downloaded: if download_kbps == 0 {
            app.spoofer_total_bytes
        } else {
            0
        },
        client: app.selected_spoofer_client(),
        port,
    }
}

/// The ratio-boost tab's answer to a key other than Enter: Esc drops the
/// focus, Down and Up move it; with a field focused, the cursor keys,
/// Backspace and typed characters edit it (the rate fields take digits
/// only); without focus, Left and Right switch tabs and `c`, `t` and `s`
/// choose the next client, the next tracker, or stop a running session.
pub open spec fn spoofer_key_post(old: App, new: App, k: KeyEvent, r: Option<Action>) -> bool {
    let c = k.code;
    let f = old.spoofer_focused_field;
    if c == KeyCode::Esc {
        r is None && new == (App { spoofer_focused_field: None, ..old })
    } else if c == KeyCode::Down {
        r is None && new == (App { spoofer_focused_field: next_field(f), ..old })
    } else if c == KeyCode::Up {
        r is None && new == (App { spoofer_focused_field: prev_field(f), ..old })
    } else if c == KeyCode::Left || c == KeyCode::Right {
        &&& r is None
        &&& match f {
            Some(fld) => is_field_edit(
                old,
                new,
                fld,
                if c == KeyCode::Left {
                    FieldEdit::Left
                } else {
                    FieldEdit::Right
                },
            ),
            None => is_toggle_view(old, new),
        }
    } else if c == KeyCode::Home || c == KeyCode::End || c == KeyCode::Backspace {
        &&& r is None
        &&& match f {
            Some(fld) => is_field_edit(
                old,
                new,
                fld,
                if c == KeyCode::Home {
                    FieldEdit::Home
                } else if c == KeyCode::End {
                    FieldEdit::End
                } else {
                    FieldEdit::Backspace
                },
            ),
            None => new == old,
        }
    } else if c is Char {
        let ch = c->Char_0;
        match f {
            Some(fld) => r is None && if accepts(fld, ch) {
                is_field_edit(old, new, fld, FieldEdit::Push(ch))
            } else {
                new == old
            },
            None => if ch == 'c' && !k.ctrl {
                r is None && is_cycle_spoofer_client(old, new)
            } else if ch == 't' {
                r is None && is_cycle_spoofer_tracker(old, new)
            } else if ch == 's' {
                new == old && r == (if old.spoofer_running {
                    Some(Action::StopSpoofer)
                } else {
                    None
                })
            } else {
                r is None && new == old
            },
        }
    } else {
        r is None && new == old
    }
}

/// The ratio-boost tab's answer to an event. Enter starts a session when
/// the tab is ready, with the configuration it describes and the port that
/// `port_seed` gives, and otherwise shows an error; other keys as
/// `spoofer_key_post` says; anything else is ignored.
pub open spec fn spoofer_post(
    old: App,
    new: App,
    event: Event,
    port_seed: u16,
    r: Option<Action>,
) -> bool {
    match event {
        Event::Key(k) => if k.code == KeyCode::Enter {
            if spoofer_ready(old) {
                &&& new == old
                &&& (r matches Some(Action::StartSpoofer { config }) && is_start_config(
                    old,
                    port_seed,
                    config,
                ))
            } else {
                &&& r is None
                &&& (new.status_message matches Some(m) && m@ == missing_inputs_message())
                &&& new == (App { status_message: new.status_message, ..old })
            }
        } else {
            spoofer_key_post(old, new, k, r)
        },
        _ => r is None && new == old,
    }
}

/// A character typed into the focused field of the ratio-boost tab, when
/// the field takes it, fits in memory.
pub open spec fn spoofer_event_fits(app: App, event: Event) -> bool {
    match event {
        Event::Key(k) => match k.code {
            KeyCode::Char(c) => match app.spoofer_focused_field {
                Some(f) => !accepts(f, c) || byte_len(field_of(app, f).value@) + utf8_width(c)
                    <= usize::MAX,
                None => true,
            },
            _ => true,
        },
        _ => true,
    }
}

/// Handles an event in the ratio-boost tab. The handler is a function of
/// the state, the event and `port_seed`, the random number from which the
/// port of a session started by Enter is taken.
pub fn key_spoofer(app: &mut App, event: Event, port_seed: u16) -> (r: Option<Action>)
    requires
        spoofer_fields_ok(*old(app)),
        spoofer_event_fits(*old(app), event),
    ensures
        spoofer_post(*old(app), *final(app), event, port_seed, r),
        spoofer_fields_ok(*final(app)),
        old(app).wf() ==> final(app).wf(),
{
    if let Event::Key(key) = event {
        let focused = app.spoofer_focused_field;
        match key.code {
            KeyCode::Esc => {
                app.spoofer_focused_field = None;
            },
            KeyCode::Down => {
                app.spoofer_focused_field = match focused {
                    None => Some(SpooferField::UploadRate),
                    Some(SpooferField::UploadRate) => Some(SpooferField::DownloadRate),
                    Some(SpooferField::DownloadRate) => Some(SpooferField::TrackerUrl),
                    Some(SpooferField::TrackerUrl) => None,
                };
            },
            KeyCode::Up => {
                app.spoofer_focused_field = match focused {
                    None => Some(SpooferField::TrackerUrl),
                    Some(SpooferField::UploadRate) => None,
                    Some(SpooferField::DownloadRate) => Some(SpooferField::UploadRate),
                    Some(SpooferField::TrackerUrl) => Some(SpooferField::DownloadRate),
                };
            },
            KeyCode::Left => match focused {
                Some(f) => edit_field(app, f, FieldEdit::Left),
                None => app.toggle_view(),
            },
            KeyCode::Right => match focused {
                Some(f) => edit_field(app, f, FieldEdit::Right),
                None => app.toggle_view(),
            },
            KeyCode::Home => {
                if let Some(f) = focused {
                    edit_field(app, f, FieldEdit::Home);
                }
            },
            KeyCode::End => {
                if let Some(f) = focused {
                    edit_field(app, f, FieldEdit::End);
                }
            },
            KeyCode::Backspace => {
                if let Some(f) = focused {
                    edit_field(app, f, FieldEdit::Backspace);
                }
            },
            KeyCode::Enter => {
                if !spoofer_inputs_ready(app) {
                    app.status_message = Some(
                        "Error: tracker URL and torrent info hash are required.".to_owned(),
                    );
                    return None;
                }
                let config = start_config(app, port_seed);
                return Some(Action::StartSpoofer { config });
            },
            KeyCode::Char(c) => match focused {
                Some(f) => {
                    if field_accepts(f, c) {
                        edit_field(app, f, FieldEdit::Push(c));
                    }
                },
                None => {
                    if c == 'c' && !key.ctrl {
                        app.cycle_spoofer_client();
                    } else if c == 't' {
                        app.cycle_spoofer_tracker();
                    } else if c == 's' {
                        if app.spoofer_running {
                            return Some(Action::StopSpoofer);
                        }
                    }
                },
            },
            _ => {},
        }
    }
    None
}

/// Up undoes Down and Down undoes Up, and four presses of either come back
/// to the same focus (three fields, then none).
pub proof fn law_focus_cycle(f: Option<SpooferField>)
    ensures
        prev_field(next_field(f)) == f,
        next_field(prev_field(f)) == f,
        next_field(next_field(next_field(next_field(f)))) == f,
        prev_field(prev_field(prev_field(prev_field(f)))) == f,
{
}

/// Every character of `s` is a decimal digit.
pub open spec fn digits_only(s: Seq<char>) -> bool {
    forall|i: int| 0 <= i < s.len() ==> is_digit(#[trigger] s[i])
}

/// An edit keeps a text of digits made of digits, as long as a typed
/// character is a digit.
proof fn lemma_edit_keeps_digits(e: FieldEdit, a: InputState, b: InputState)
    requires
        a.ok(),
        is_edit(e, a, b),
        digits_only(a.value@),
        e matches FieldEdit::Push(c) ==> is_digit(c),
    ensures
        digits_only(b.value@),
{
    let s = a.value@;
    lemma_boundary_facts(s, a.cursor as int);
    match e {
        FieldEdit::Backspace => {
            if a.cursor != 0 {
                let k = chars_within(s, a.cursor - 1) as int;
                lemma_chars_within(s, a.cursor - 1);
                lemma_offset_ends(s);
                assert(k < s.len());
                assert forall|i: int| 0 <= i < b.value@.len() implies is_digit(#[trigger] b.value@[i]) by {
                    if i < k {
                        assert(b.value@[i] == s[i]);
                    } else {
                        assert(b.value@[i] == s[i + 1]);
                    }
                }
            }
        },
        FieldEdit::Push(c) => {
            let k = chars_within(s, a.cursor as int) as int;
            assert forall|i: int| 0 <= i < b.value@.len() implies is_digit(#[trigger] b.value@[i]) by {
                if i < k {
                    assert(b.value@[i] == s[i]);
                } else if i == k {
                    assert(b.value@[i] == c);
                } else {
                    assert(b.value@[i] == s[i - 1]);
                }
            }
        },
        _ => {},
    }
}

/// The rate fields hold digits only: whatever event the interface handles,
/// rate fields made of digits stay made of digits.
pub proof fn law_rate_fields_stay_numeric(old: App, new: App, event: Event, r: Option<Action>)
    requires
        old.wf(),
        event_post(old, new, event, r),
        digits_only(old.spoofer_upload_input.value@),
        digits_only(old.spoofer_download_input.value@),
    ensures
        digits_only(new.spoofer_upload_input.value@),
        digits_only(new.spoofer_download_input.value@),
{
    if old.view == AppView::Spoofer {
        if let Event::Key(k) = event {
            let c = k.code;
            if let Some(fld) = old.spoofer_focused_field {
                let e = if c == KeyCode::Left {
                    FieldEdit::Left
                } else if c == KeyCode::Right {
                    FieldEdit::Right
                } else if c == KeyCode::Home {
                    FieldEdit::Home
                } else if c == KeyCode::End {
                    FieldEdit::End
                } else if c == KeyCode::Backspace {
                    FieldEdit::Backspace
                } else if c is Char {
                    FieldEdit::Push(c->Char_0)
                } else {
                    FieldEdit::Left
                };
                if fld != SpooferField::TrackerUrl && (c == KeyCode::Left || c == KeyCode::Right
                    || c == KeyCode::Home || c == KeyCode::End || c == KeyCode::Backspace || (
                c is Char && accepts(fld, c->Char_0))) {
                    lemma_edit_keeps_digits(e, field_of(old, fld), field_of(new, fld));
                }
            }
        }
    }
}

/// The rate fields take exactly the decimal digits `0` to `9`; the tracker
/// field takes every character.
pub proof fn law_rate_fields_take_digits(f: SpooferField, c: char)
    ensures
        f != SpooferField::TrackerUrl ==> (accepts(f, c) <==> ('0' <= c && c <= '9')),
        f == SpooferField::TrackerUrl ==> accepts(f, c),
{
    assert(('0' as u32) == 48);
    assert(('9' as u32) == 57);
}

/// Pause or resume goes by id, not by position: the torrent that counts is
/// the first row whose id is `id`, wherever it stands in the list, and a
/// list without that id counts as not paused.
pub proof fn law_paused_by_id(rows: Seq<TorrentRow>, id: usize, i: int)
    requires
        0 <= i < rows.len(),
        rows[i].id == id,
        forall|j: int| 0 <= j < i ==> (#[trigger] rows[j]).id != id,
    ensures
        is_paused_id(rows, id) == (rows[i].status is Paused),
    decreases i,
{
    if i > 0 {
        let rest = rows.drop_first();
        assert forall|j: int| 0 <= j < i - 1 implies (#[trigger] rest[j]).id != id by {
            assert(rest[j] == rows[j + 1]);
        }
        assert(rest[i - 1] == rows[i]);
        law_paused_by_id(rest, id, i - 1);
        assert(rows[0].id != id);
    }
}

/// A list without a row of id `id` counts as not paused.
pub proof fn law_paused_missing_id(rows: Seq<TorrentRow>, id: usize)
    requires
        forall|j: int| 0 <= j < rows.len() ==> (#[trigger] rows[j]).id != id,
    ensures
        !is_paused_id(rows, id),
    decreases rows.len(),
{
    if rows.len() > 0 {
        let rest = rows.drop_first();
        assert forall|j: int| 0 <= j < rest.len() implies (#[trigger] rest[j]).id != id by {
            assert(rest[j] == rows[j + 1]);
        }
        law_paused_missing_id(rest, id);
        assert(rows[0].id != id);
    }
}

/// The answer to an event in the current tab and dialog; a session started
/// in the ratio-boost tab announces the port that some random seed gives.
pub open spec fn event_post(old: App, new: App, event: Event, r: Option<Action>) -> bool {
    match old.view {
        AppView::Spoofer => exists|seed: u16| #[trigger] spoofer_post(old, new, event, seed, r),
        AppView::Downloader => match old.mode {
            AppMode::Normal => normal_post(old, new, event, r),
            AppMode::AddDialog => add_dialog_post(old, new, event, r),
            AppMode::ConfirmRemove { torrent_id, delete_files } => confirm_remove_post(
                old,
                new,
                event,
                torrent_id,
                delete_files,
                r,
            ),
        },
    }
}

/// The text that an event brings into a field fits in memory.
pub open spec fn event_fits(app: App, event: Event) -> bool {
    match app.view {
        AppView::Spoofer => spoofer_event_fits(app, event),
        AppView::Downloader => app.mode is AddDialog ==> add_event_fits(app, event),
    }
}

/// The character that an event types into a field of the current tab or
/// dialog, if it types one.
pub open spec fn typed_char_spec(app: App, event: Event) -> Option<char> {
    match event {
        Event::Key(k) => match k.code {
            KeyCode::Char(c) => match app.view {
                AppView::Downloader => if app.mode is AddDialog && !(k.ctrl
                    && is_add_dialog_command(c)) {
                    Some(c)
                } else {
                    None
                },
                AppView::Spoofer => match app.spoofer_focused_field {
                    Some(f) => if accepts(f, c) {
                        Some(c)
                    } else {
                        None
                    },
                    None => None,
                },
            },
            _ => None,
        },
        _ => None,
    }
}

/// The character that an event types into a field, if any: the one whose
/// room `event_fits` asks for.
pub fn typed_char(app: &App, event: &Event) -> (r: Option<char>)
    ensures
        r == typed_char_spec(*app, *event),
{
    match event {
        Event::Key(k) => match k.code {
            KeyCode::Char(c) => match app.view {
                AppView::Downloader => {
                    let command = c == 'c' || c == 'v' || c == 'a' || c == 'e' || c == 'w' || c
                        == 'k' || c == 'u';
                    if app.mode == AppMode::AddDialog && !(k.ctrl && command) {
                        Some(c)
                    } else {
                        None
                    }
                },
                AppView::Spoofer => match app.spoofer_focused_field {
                    Some(f) => if field_accepts(f, c) {
                        Some(c)
                    } else {
                        None
                    },
                    None => None,
                },
            },
            _ => None,
        },
        _ => None,
    }
}

/// Hands an event to the handler of the current tab and dialog.
pub fn handle_event(app: &mut App, event: Event) -> (r: Option<Action>)
    requires
        old(app).wf(),
        event_fits(*old(app), event),
    ensures
        event_post(*old(app), *final(app), event, r),
        final(app).wf(),
{
    match app.view {
        AppView::Spoofer => {
            let port_seed = if matches!(event, Event::Key(KeyEvent { code: KeyCode::Enter, .. })) {
                random_u16()
            } else {
                0
            };
            key_spoofer(app, event, port_seed)
        },
        AppView::Downloader => match app.mode {
            AppMode::Normal => key_normal(app, event),
            AppMode::AddDialog => key_add_dialog(app, event),
            AppMode::ConfirmRemove { torrent_id, delete_files } => key_confirm_remove(
                app,
                event,
                torrent_id,
                delete_files,
            ),
        },
    }
}

/// What came of an action that the program carried out; an error carries
/// its message.
#[derive(Debug)]
pub enum Outcome {
    Quit,
    Paused(Result<(), String>),
    Resumed(Result<(), String>),
    Added(Result<(), String>),
    Removed(Result<(), String>),
    SpooferOpened { torrent_id: usize, meta: Option<TorrentMeta> },
    SpooferStarted,
    SpooferStopped,
}

/// The status line of `app` shows `msg`.
pub open spec fn shows(app: App, msg: Seq<char>) -> bool {
    app.status_message matches Some(m) && m@ == msg
}

/// `new` is `old` with only the status message changed, to `msg`.
pub open spec fn only_status(old: App, new: App, msg: Seq<char>) -> bool {
    shows(new, msg) && new == (App { status_message: new.status_message, ..old })
}

/// The message shown for a failed engine request.
pub open spec fn error_message(e: Seq<char>) -> Seq<char> {
    "Error: "@ + e
}

/// The status after an engine request that reports nothing on success.
pub open spec fn quiet_result_post(old: App, new: App, res: Result<(), String>) -> bool {
    match res {
        Ok(_) => new == (App { status_message: None, ..old }),
        Err(e) => only_status(old, new, error_message(e@)),
    }
}

/// How the state takes the outcome of an action: quitting, the messages
/// for pause, resume, add and remove (an added torrent also closes the add
/// dialog; a failed add leaves it open), the ratio-boost tab opened for a
/// torrent, and a session started or stopped.
pub open spec fn outcome_post(old: App, new: App, o: Outcome) -> bool {
    match o {
        Outcome::Quit => new == (App { should_quit: true, ..old }),
        Outcome::Paused(res) => quiet_result_post(old, new, res),
        Outcome::Resumed(res) => quiet_result_post(old, new, res),
        Outcome::Added(res) => match res {
            Ok(_) => {
                &&& shows(new, "Torrent added."@)
                &&& new == (App { status_message: new.status_message, mode: AppMode::Normal, ..old })
            },
            Err(e) => only_status(old, new, error_message(e@)),
        },
        Outcome::Removed(res) => match res {
            Ok(_) => only_status(old, new, "Torrent removed."@),
            Err(e) => only_status(old, new, error_message(e@)),
        },
        Outcome::SpooferOpened { torrent_id, meta } => is_enter_spoofer_view(
            old,
            new,
            Some(torrent_id),
            meta,
        ),
        Outcome::SpooferStarted => {
            &&& shows(new, "Ratio boost started."@)
            &&& new == (App { status_message: new.status_message, spoofer_running: true, ..old })
        },
        Outcome::SpooferStopped => {
            &&& shows(new, "Ratio boost stopped."@)
            &&& new == (App { status_message: new.status_message, spoofer_running: false, ..old })
        },
    }
}

/// The error message for `e`.
fn error_text(e: &str) -> (r: String)
    ensures
        r@ == error_message(e@),
{
    let mut m = "Error: ".to_owned();
    m.append(e);
    m
}

/// Records the outcome of an action in the state.
pub fn apply_outcome(app: &mut App, outcome: Outcome)
    requires
        outcome matches Outcome::SpooferOpened { meta: Some(m), .. } ==> texts_fit(m.tracker_urls@),
    ensures
        outcome_post(*old(app), *final(app), outcome),
        old(app).wf() ==> final(app).wf(),
{
    match outcome {
        Outcome::Quit => {
            app.should_quit = true;
        },
        Outcome::Paused(res) | Outcome::Resumed(res) => {
            app.status_message = match res {
                Ok(_) => None,
                Err(e) => Some(error_text(e.as_str())),
            };
        },
        Outcome::Added(res) => match res {
            Ok(_) => {
                app.dismiss_dialog();
                app.status_message = Some("Torrent added.".to_owned());
            },
            Err(e) => {
                app.status_message = Some(error_text(e.as_str()));
            },
        },
        Outcome::Removed(res) => match res {
            Ok(_) => {
                app.status_message = Some("Torrent removed.".to_owned());
            },
            Err(e) => {
                app.status_message = Some(error_text(e.as_str()));
            },
        },
        Outcome::SpooferOpened { torrent_id, meta } => {
            app.enter_spoofer_view(Some(torrent_id), meta);
        },
        Outcome::SpooferStarted => {
            app.spoofer_running = true;
            app.status_message = Some("Ratio boost started.".to_owned());
        },
        Outcome::SpooferStopped => {
            app.spoofer_running = false;
            app.status_message = Some("Ratio boost stopped.".to_owned());
        },
    }
}

} // verus!
