use synsekai::app::{App, TorrentMeta};
use synsekai::spoofer::SpooferConfig;
use synsekai::tui::{
    apply_outcome, clean_path, handle_event, key_add_dialog, key_confirm_remove, key_normal,
    key_spoofer, paste_into_add_dialog, start_config, typed_char, Action, Event, KeyCode, KeyEvent, Outcome,
};
use synsekai::types::{AppMode, AppView, ClientProfile, SpooferField, TorrentRow, TorrentStatus};

fn key(code: KeyCode) -> Event {
    Event::Key(KeyEvent { code, ctrl: false })
}

fn ctrl(code: KeyCode) -> Event {
    Event::Key(KeyEvent { code, ctrl: true })
}

fn ctrl_code(code: KeyCode) -> Event {
    Event::Key(KeyEvent { code, ctrl: true })
}

fn app_with_torrents(n: usize) -> App {
    let mut app = App::new();
    app.torrents = (0..n)
        .map(|i| TorrentRow {
            id: i,
            name: format!("t{i}"),
            total_bytes: 1000,
            progress_bytes: 0,
            down_speed_bps: 0,
            peers_live: 0,
            peers_seen: 0,
            status: TorrentStatus::Downloading,
        })
        .collect();
    app
}

// ── key_normal ────────────────────────────────────────────────────────────

#[test]
fn normal_q_quits() {
    let mut app = App::new();
    assert_eq!(
        key_normal(&mut app, key(KeyCode::Char('q'))),
        Some(Action::Quit)
    );
}

#[test]
fn normal_ctrl_c_quits() {
    let mut app = App::new();
    assert_eq!(
        key_normal(&mut app, ctrl(KeyCode::Char('c'))),
        Some(Action::Quit)
    );
}

#[test]
fn normal_a_opens_add_dialog() {
    let mut app = App::new();
    assert_eq!(key_normal(&mut app, key(KeyCode::Char('a'))), None);
    assert_eq!(app.mode, AppMode::AddDialog);
}

#[test]
fn normal_d_opens_confirm_remove() {
    let mut app = app_with_torrents(1);
    assert_eq!(key_normal(&mut app, key(KeyCode::Char('d'))), None);
    assert!(matches!(app.mode, AppMode::ConfirmRemove { .. }));
}

#[test]
fn normal_j_moves_down() {
    let mut app = app_with_torrents(3);
    assert_eq!(key_normal(&mut app, key(KeyCode::Char('j'))), None);
    assert_eq!(app.selected, 1);
}

#[test]
fn normal_k_moves_up() {
    let mut app = app_with_torrents(3);
    app.selected = 2;
    assert_eq!(key_normal(&mut app, key(KeyCode::Char('k'))), None);
    assert_eq!(app.selected, 1);
}

#[test]
fn normal_down_moves_down() {
    let mut app = app_with_torrents(2);
    key_normal(&mut app, key(KeyCode::Down));
    assert_eq!(app.selected, 1);
}

#[test]
fn normal_up_moves_up() {
    let mut app = app_with_torrents(2);
    app.selected = 1;
    key_normal(&mut app, key(KeyCode::Up));
    assert_eq!(app.selected, 0);
}

#[test]
fn normal_p_on_downloading_returns_pause() {
    let mut app = app_with_torrents(1);
    assert_eq!(
        key_normal(&mut app, key(KeyCode::Char('p'))),
        Some(Action::Pause(0))
    );
}

#[test]
fn normal_p_on_paused_returns_resume() {
    let mut app = app_with_torrents(1);
    app.torrents[0].status = TorrentStatus::Paused;
    assert_eq!(
        key_normal(&mut app, key(KeyCode::Char('p'))),
        Some(Action::Resume(0))
    );
}

#[test]
fn normal_p_with_no_torrents_returns_none() {
    let mut app = App::new();
    assert_eq!(key_normal(&mut app, key(KeyCode::Char('p'))), None);
}

#[test]
fn normal_unknown_key_returns_none() {
    let mut app = App::new();
    assert_eq!(key_normal(&mut app, key(KeyCode::F(1))), None);
}

#[test]
fn normal_ignores_non_key_event() {
    let mut app = App::new();
    assert_eq!(key_normal(&mut app, Event::Other), None);
}

// ── key_add_dialog ────────────────────────────────────────────────────────

#[test]
fn add_dialog_esc_dismisses() {
    let mut app = App::new();
    app.open_add_dialog();
    assert_eq!(key_add_dialog(&mut app, key(KeyCode::Esc)), None);
    assert_eq!(app.mode, AppMode::Normal);
}

#[test]
fn add_dialog_enter_with_input_returns_add_torrent() {
    let mut app = App::new();
    app.open_add_dialog();
    app.add_input.value = "magnet:?xt=test".into();
    app.add_input.cursor = app.add_input.value.len();
    let action = key_add_dialog(&mut app, key(KeyCode::Enter));
    assert_eq!(action, Some(Action::AddTorrent("magnet:?xt=test".into())));
    // Dialog stays open — the outcome of the add closes it on success
    assert_eq!(app.mode, AppMode::AddDialog);
}

#[test]
fn add_dialog_enter_with_empty_input_does_nothing() {
    let mut app = App::new();
    app.open_add_dialog();
    assert_eq!(key_add_dialog(&mut app, key(KeyCode::Enter)), None);
    assert_eq!(app.mode, AppMode::AddDialog);
}

#[test]
fn add_dialog_char_appends() {
    let mut app = App::new();
    app.open_add_dialog();
    key_add_dialog(&mut app, key(KeyCode::Char('x')));
    assert_eq!(app.add_input.value, "x");
}

#[test]
fn add_dialog_left_moves_cursor() {
    let mut app = App::new();
    app.open_add_dialog();
    app.add_input.push('a');
    app.add_input.push('b');
    key_add_dialog(&mut app, key(KeyCode::Left));
    assert_eq!(app.add_input.cursor, 1);
}

#[test]
fn add_dialog_right_moves_cursor() {
    let mut app = App::new();
    app.open_add_dialog();
    app.add_input.push('a');
    app.add_input.push('b');
    key_add_dialog(&mut app, key(KeyCode::Left));
    key_add_dialog(&mut app, key(KeyCode::Right));
    assert_eq!(app.add_input.cursor, 2);
}

#[test]
fn add_dialog_backspace_removes_char() {
    let mut app = App::new();
    app.open_add_dialog();
    app.add_input.push('h');
    app.add_input.push('i');
    key_add_dialog(&mut app, key(KeyCode::Backspace));
    assert_eq!(app.add_input.value, "h");
}

#[test]
fn add_dialog_ctrl_c_does_not_panic() {
    let mut app = App::new();
    app.open_add_dialog();
    app.add_input.push('x');
    // The clipboard itself is the program's business; the handler asks for the copy.
    assert_eq!(
        key_add_dialog(&mut app, ctrl(KeyCode::Char('c'))),
        Some(Action::CopyToClipboard("x".into()))
    );
}

#[test]
fn add_dialog_ctrl_v_does_not_panic() {
    let mut app = App::new();
    app.open_add_dialog();
    assert_eq!(
        key_add_dialog(&mut app, ctrl(KeyCode::Char('v'))),
        Some(Action::PasteFromClipboard)
    );
}

#[test]
fn add_dialog_paste_sets_input() {
    let mut app = App::new();
    app.open_add_dialog();
    app.add_input.push('x'); // pre-existing content replaced by paste
    assert_eq!(
        key_add_dialog(&mut app, Event::Paste("/tmp/my file.torrent".into())),
        None
    );
    assert_eq!(app.add_input.value, "/tmp/my file.torrent");
    assert_eq!(app.add_input.cursor, "/tmp/my file.torrent".len());
}

#[test]
fn add_dialog_paste_trims_whitespace() {
    let mut app = App::new();
    app.open_add_dialog();
    key_add_dialog(&mut app, Event::Paste("  /tmp/test.torrent\n".into()));
    assert_eq!(app.add_input.value, "/tmp/test.torrent");
}

#[test]
fn add_dialog_paste_strips_single_quotes() {
    let mut app = App::new();
    app.open_add_dialog();
    key_add_dialog(
        &mut app,
        Event::Paste("'/Users/someone/Downloads/test.torrent'".into()),
    );
    assert_eq!(app.add_input.value, "/Users/someone/Downloads/test.torrent");
}

#[test]
fn add_dialog_paste_strips_double_quotes() {
    let mut app = App::new();
    app.open_add_dialog();
    key_add_dialog(&mut app, Event::Paste("\"/tmp/my torrent.torrent\"".into()));
    assert_eq!(app.add_input.value, "/tmp/my torrent.torrent");
}

#[test]
fn add_dialog_ctrl_left_moves_word_left() {
    let mut app = App::new();
    app.open_add_dialog();
    app.add_input.value = "hello world".into();
    app.add_input.cursor = 11;
    key_add_dialog(&mut app, ctrl_code(KeyCode::Left));
    assert_eq!(app.add_input.cursor, 6);
}

#[test]
fn add_dialog_ctrl_right_moves_word_right() {
    let mut app = App::new();
    app.open_add_dialog();
    app.add_input.value = "hello world".into();
    app.add_input.cursor = 0;
    key_add_dialog(&mut app, ctrl_code(KeyCode::Right));
    assert_eq!(app.add_input.cursor, 5);
}

#[test]
fn add_dialog_home_moves_to_start() {
    let mut app = App::new();
    app.open_add_dialog();
    app.add_input.value = "hello".into();
    app.add_input.cursor = 5;
    key_add_dialog(&mut app, key(KeyCode::Home));
    assert_eq!(app.add_input.cursor, 0);
}

#[test]
fn add_dialog_end_moves_to_end() {
    let mut app = App::new();
    app.open_add_dialog();
    app.add_input.value = "hello".into();
    app.add_input.cursor = 0;
    key_add_dialog(&mut app, key(KeyCode::End));
    assert_eq!(app.add_input.cursor, 5);
}

#[test]
fn add_dialog_ctrl_a_moves_to_start() {
    let mut app = App::new();
    app.open_add_dialog();
    app.add_input.value = "hello".into();
    app.add_input.cursor = 5;
    key_add_dialog(&mut app, ctrl(KeyCode::Char('a')));
    assert_eq!(app.add_input.cursor, 0);
}

#[test]
fn add_dialog_ctrl_e_moves_to_end() {
    let mut app = App::new();
    app.open_add_dialog();
    app.add_input.value = "hello".into();
    app.add_input.cursor = 0;
    key_add_dialog(&mut app, ctrl(KeyCode::Char('e')));
    assert_eq!(app.add_input.cursor, 5);
}

#[test]
fn add_dialog_ctrl_backspace_deletes_word_back() {
    let mut app = App::new();
    app.open_add_dialog();
    app.add_input.value = "hello world".into();
    app.add_input.cursor = 11;
    key_add_dialog(&mut app, ctrl_code(KeyCode::Backspace));
    assert_eq!(app.add_input.value, "hello ");
}

#[test]
fn add_dialog_ctrl_w_deletes_word_back() {
    let mut app = App::new();
    app.open_add_dialog();
    app.add_input.value = "hello world".into();
    app.add_input.cursor = 11;
    key_add_dialog(&mut app, ctrl(KeyCode::Char('w')));
    assert_eq!(app.add_input.value, "hello ");
}

#[test]
fn add_dialog_ctrl_delete_deletes_word_forward() {
    let mut app = App::new();
    app.open_add_dialog();
    app.add_input.value = "hello world".into();
    app.add_input.cursor = 0;
    key_add_dialog(&mut app, ctrl_code(KeyCode::Delete));
    assert_eq!(app.add_input.value, " world");
}

#[test]
fn add_dialog_ctrl_k_deletes_to_end() {
    let mut app = App::new();
    app.open_add_dialog();
    app.add_input.value = "hello world".into();
    app.add_input.cursor = 5;
    key_add_dialog(&mut app, ctrl(KeyCode::Char('k')));
    assert_eq!(app.add_input.value, "hello");
}

#[test]
fn add_dialog_ctrl_u_deletes_to_start() {
    let mut app = App::new();
    app.open_add_dialog();
    app.add_input.value = "hello world".into();
    app.add_input.cursor = 6;
    key_add_dialog(&mut app, ctrl(KeyCode::Char('u')));
    assert_eq!(app.add_input.value, "world");
    assert_eq!(app.add_input.cursor, 0);
}

#[test]
fn add_dialog_ignores_non_key_event() {
    let mut app = App::new();
    app.open_add_dialog();
    assert_eq!(key_add_dialog(&mut app, Event::Other), None);
}

#[test]
fn add_dialog_unknown_key_returns_none() {
    let mut app = App::new();
    app.open_add_dialog();
    assert_eq!(key_add_dialog(&mut app, key(KeyCode::F(2))), None);
}

// ── key_confirm_remove ────────────────────────────────────────────────────

#[test]
fn confirm_esc_dismisses() {
    let mut app = app_with_torrents(1);
    app.open_confirm_remove();
    assert_eq!(
        key_confirm_remove(&mut app, key(KeyCode::Esc), 0, false),
        None
    );
    assert_eq!(app.mode, AppMode::Normal);
}

#[test]
fn confirm_space_toggles_delete_files() {
    let mut app = app_with_torrents(1);
    app.open_confirm_remove();
    assert_eq!(
        key_confirm_remove(&mut app, key(KeyCode::Char(' ')), 0, false),
        None
    );
    assert!(matches!(
        app.mode,
        AppMode::ConfirmRemove {
            delete_files: true,
            ..
        }
    ));
}

#[test]
fn confirm_enter_returns_remove_keep_files() {
    let mut app = app_with_torrents(1);
    app.open_confirm_remove();
    let action = key_confirm_remove(&mut app, key(KeyCode::Enter), 0, false);
    assert_eq!(
        action,
        Some(Action::Remove {
            id: 0,
            delete_files: false
        })
    );
    assert_eq!(app.mode, AppMode::Normal);
}

#[test]
fn confirm_enter_returns_remove_delete_files() {
    let mut app = app_with_torrents(1);
    app.open_confirm_remove();
    let action = key_confirm_remove(&mut app, key(KeyCode::Enter), 0, true);
    assert_eq!(
        action,
        Some(Action::Remove {
            id: 0,
            delete_files: true
        })
    );
}

#[test]
fn confirm_ignores_non_key_event() {
    let mut app = app_with_torrents(1);
    app.open_confirm_remove();
    assert_eq!(
        key_confirm_remove(&mut app, Event::Other, 0, false),
        None
    );
}

#[test]
fn confirm_unknown_key_returns_none() {
    let mut app = app_with_torrents(1);
    app.open_confirm_remove();
    assert_eq!(
        key_confirm_remove(&mut app, key(KeyCode::F(3)), 0, false),
        None
    );
}

// ── key_spoofer ───────────────────────────────────────────────────────────

fn open_spoofer_app(info_hash: &str) -> App {
    let mut app = app_with_torrents(1);
    app.spoofer_info_hash = info_hash.into();
    app.spoofer_total_bytes = 1_000_000;
    app.view = AppView::Spoofer;
    app.spoofer_focused_field = Some(SpooferField::UploadRate);
    app
}

#[test]
fn spoofer_esc_unfocuses_field() {
    let mut app = open_spoofer_app("a".repeat(40).as_str());
    assert!(app.spoofer_focused_field.is_some());
    assert_eq!(key_spoofer(&mut app, key(KeyCode::Esc), 0), None);
    assert_eq!(app.spoofer_focused_field, None);
    assert_eq!(app.view, AppView::Spoofer); // stays in spoofer
}

#[test]
fn spoofer_esc_when_unfocused_is_noop() {
    let mut app = open_spoofer_app("a".repeat(40).as_str());
    app.spoofer_focused_field = None;
    key_spoofer(&mut app, key(KeyCode::Esc), 0);
    assert_eq!(app.view, AppView::Spoofer); // still in spoofer
    assert_eq!(app.spoofer_focused_field, None);
}

#[test]
fn spoofer_down_cycles_fields_forward_and_unfocuses() {
    let mut app = open_spoofer_app("a".repeat(40).as_str());
    assert_eq!(app.spoofer_focused_field, Some(SpooferField::UploadRate));
    key_spoofer(&mut app, key(KeyCode::Down), 0);
    assert_eq!(app.spoofer_focused_field, Some(SpooferField::DownloadRate));
    key_spoofer(&mut app, key(KeyCode::Down), 0);
    assert_eq!(app.spoofer_focused_field, Some(SpooferField::TrackerUrl));
    key_spoofer(&mut app, key(KeyCode::Down), 0); // past last → unfocus
    assert_eq!(app.spoofer_focused_field, None);
}

#[test]
fn spoofer_up_cycles_fields_backward_and_unfocuses() {
    let mut app = open_spoofer_app("a".repeat(40).as_str());
    assert_eq!(app.spoofer_focused_field, Some(SpooferField::UploadRate));
    key_spoofer(&mut app, key(KeyCode::Up), 0); // past first → unfocus
    assert_eq!(app.spoofer_focused_field, None);
    key_spoofer(&mut app, key(KeyCode::Up), 0); // from unfocused → last field
    assert_eq!(app.spoofer_focused_field, Some(SpooferField::TrackerUrl));
}

#[test]
fn spoofer_left_when_unfocused_switches_tab() {
    let mut app = open_spoofer_app("a".repeat(40).as_str());
    app.spoofer_focused_field = None;
    key_spoofer(&mut app, key(KeyCode::Left), 0);
    assert_eq!(app.view, AppView::Downloader);
}

#[test]
fn spoofer_right_when_unfocused_switches_tab() {
    let mut app = open_spoofer_app("a".repeat(40).as_str());
    app.spoofer_focused_field = None;
    key_spoofer(&mut app, key(KeyCode::Right), 0);
    assert_eq!(app.view, AppView::Downloader);
}

#[test]
fn spoofer_left_when_focused_moves_cursor() {
    let mut app = open_spoofer_app("a".repeat(40).as_str());
    app.spoofer_upload_input.value = "abc".into();
    app.spoofer_upload_input.cursor = 3;
    key_spoofer(&mut app, key(KeyCode::Left), 0);
    assert_eq!(app.spoofer_upload_input.cursor, 2);
    assert_eq!(app.view, AppView::Spoofer); // did not switch
}

#[test]
fn spoofer_enter_with_valid_inputs_returns_start_action() {
    let info_hash = "aabbccddeeff00112233445566778899aabbccdd";
    let mut app = open_spoofer_app(info_hash);
    app.spoofer_upload_input.value = "100".into();
    app.spoofer_upload_input.cursor = 3;
    app.spoofer_download_input.value = "50".into();
    app.spoofer_download_input.cursor = 2;
    app.spoofer_tracker_input.value = "http://tracker.example.com/announce".into();
    app.spoofer_tracker_input.cursor = 35;

    let action = key_spoofer(&mut app, key(KeyCode::Enter), 0);
    assert!(matches!(action, Some(Action::StartSpoofer { .. })));
}

#[test]
fn spoofer_enter_with_empty_tracker_url_sets_error() {
    let info_hash = "aabbccddeeff00112233445566778899aabbccdd";
    let mut app = open_spoofer_app(info_hash);
    app.spoofer_upload_input.value = "100".into();
    // tracker_input is empty

    let action = key_spoofer(&mut app, key(KeyCode::Enter), 0);
    assert_eq!(action, None);
    assert!(app.status_message.as_deref().unwrap_or("").starts_with("Error"));
}

#[test]
fn spoofer_enter_with_non_numeric_rate_defaults_to_zero() {
    let info_hash = "aabbccddeeff00112233445566778899aabbccdd";
    let mut app = open_spoofer_app(info_hash);
    app.spoofer_upload_input.value = "not-a-number".into();
    app.spoofer_tracker_input.value = "http://tracker.example.com/announce".into();
    app.spoofer_tracker_input.cursor = 35;

    let action = key_spoofer(&mut app, key(KeyCode::Enter), 0);
    // Should produce StartSpoofer with 0 rates (no panic)
    assert!(matches!(action, Some(Action::StartSpoofer { .. })));
}

#[test]
fn spoofer_s_key_stops_running_spoofer() {
    let info_hash = "aabbccddeeff00112233445566778899aabbccdd";
    let mut app = open_spoofer_app(info_hash);
    app.spoofer_focused_field = None; // must be unfocused for command keys
    app.spoofer_running = true;

    let action = key_spoofer(&mut app, key(KeyCode::Char('s')), 0);
    assert_eq!(action, Some(Action::StopSpoofer));
}

#[test]
fn spoofer_char_appends_to_focused_field() {
    let mut app = open_spoofer_app("a".repeat(40).as_str());
    // focused on UploadRate by default in helper
    key_spoofer(&mut app, key(KeyCode::Char('5')), 0);
    assert_eq!(app.spoofer_upload_input.value, "5");
}

#[test]
fn spoofer_rate_field_rejects_non_digits() {
    let mut app = open_spoofer_app("a".repeat(40).as_str());
    key_spoofer(&mut app, key(KeyCode::Char('a')), 0);
    key_spoofer(&mut app, key(KeyCode::Char('.')), 0);
    key_spoofer(&mut app, key(KeyCode::Char('-')), 0);
    assert_eq!(app.spoofer_upload_input.value, ""); // nothing accepted
}

#[test]
fn spoofer_tracker_field_accepts_any_char() {
    let mut app = open_spoofer_app("a".repeat(40).as_str());
    app.spoofer_focused_field = Some(SpooferField::TrackerUrl);
    key_spoofer(&mut app, key(KeyCode::Char('h')), 0);
    key_spoofer(&mut app, key(KeyCode::Char(':')), 0);
    key_spoofer(&mut app, key(KeyCode::Char('/')), 0);
    assert_eq!(app.spoofer_tracker_input.value, "h:/");
}

#[test]
fn spoofer_char_ignored_when_not_a_command_and_unfocused() {
    let mut app = open_spoofer_app("a".repeat(40).as_str());
    app.spoofer_focused_field = None;
    key_spoofer(&mut app, key(KeyCode::Char('x')), 0); // not a command
    assert_eq!(app.spoofer_upload_input.value, ""); // nothing written
}

#[test]
fn spoofer_c_cycles_client_when_unfocused() {
    let mut app = open_spoofer_app("a".repeat(40).as_str());
    app.spoofer_focused_field = None;
    assert_eq!(app.spoofer_client_idx, 0);
    key_spoofer(&mut app, key(KeyCode::Char('c')), 0);
    assert_eq!(app.spoofer_client_idx, 1);
}

#[test]
fn spoofer_c_does_not_cycle_client_when_focused() {
    let mut app = open_spoofer_app("a".repeat(40).as_str());
    // focused = Some(UploadRate) — 'c' is not a digit so it's silently dropped,
    // but it must NOT trigger the cycle-client command
    key_spoofer(&mut app, key(KeyCode::Char('c')), 0);
    assert_eq!(app.spoofer_client_idx, 0); // unchanged
}

#[test]
fn normal_b_opens_spoofer() {
    let mut app = app_with_torrents(1);
    let action = key_normal(&mut app, key(KeyCode::Char('b')));
    assert_eq!(action, Some(Action::OpenSpoofer(0)));
}

#[test]
fn normal_b_with_no_torrents_returns_none() {
    let mut app = App::new();
    assert_eq!(key_normal(&mut app, key(KeyCode::Char('b'))), None);
}

// ── further cases ─────────────────────────────────────────────────────────

#[test]
fn clean_path_cases() {
    assert_eq!(clean_path("  '/a b/c.torrent'  "), "/a b/c.torrent");
    assert_eq!(clean_path("\"'x'\""), "'x'");
    assert_eq!(clean_path("''"), "");
    assert_eq!(clean_path("\t\u{3000}/p\u{a0}"), "/p");
    assert_eq!(clean_path("/plain"), "/plain");
}

#[test]
fn paste_helper_sets_field_and_clears_message() {
    let mut app = App::new();
    app.open_add_dialog();
    app.status_message = Some("Error: x".into());
    paste_into_add_dialog(&mut app, " 'é.torrent' ");
    assert_eq!(app.add_input.value, "é.torrent");
    assert_eq!(app.add_input.cursor, "é.torrent".len());
    assert_eq!(app.status_message, None);
}

#[test]
fn add_dialog_enter_cleans_and_clears_message() {
    let mut app = App::new();
    app.open_add_dialog();
    app.add_input.value = "  \"/x.torrent\" ".into();
    app.status_message = Some("old".into());
    assert_eq!(
        key_add_dialog(&mut app, key(KeyCode::Enter)),
        Some(Action::AddTorrent("/x.torrent".into()))
    );
    assert_eq!(app.status_message, None);
    // A field of blanks and quotes is empty once cleaned.
    app.add_input.value = " '' ".into();
    app.status_message = Some("old".into());
    assert_eq!(key_add_dialog(&mut app, key(KeyCode::Enter)), None);
    assert_eq!(app.status_message.as_deref(), Some("old"));
}

#[test]
fn add_dialog_ctrl_other_char_is_typed() {
    let mut app = App::new();
    app.open_add_dialog();
    key_add_dialog(&mut app, ctrl(KeyCode::Char('z')));
    assert_eq!(app.add_input.value, "z");
    key_add_dialog(&mut app, key(KeyCode::Delete));
    assert_eq!(app.add_input.value, "z");
}

fn ready_app() -> App {
    let mut app = open_spoofer_app("aabbccddeeff00112233445566778899aabbccdd");
    app.spoofer_upload_input.value = " +100 ".into();
    app.spoofer_download_input.value = "0".into();
    app.spoofer_tracker_input.value = "  http://t.example/ann ".into();
    app.spoofer_client_idx = 5;
    app
}

#[test]
fn start_config_exact() {
    let app = ready_app();
    let config = start_config(&app, 65535);
    assert_eq!(
        config,
        SpooferConfig {
            tracker_url: "http://t.example/ann".into(),
            info_hash_hex: "aabbccddeeff00112233445566778899aabbccdd".into(),
            total_bytes: 1_000_000,
            upload_rate_bps: 102_400,
            download_rate_bps: 0,
            initial_uploaded: 0,
            initial_downloaded: 1_000_000,
            client: ClientProfile::Transmission2_92,
            port: 20000,
        }
    );
    assert_eq!(start_config(&app, 0).port, 10000);
    assert_eq!(start_config(&app, 55534).port, 65534);
}

#[test]
fn start_config_rates_saturate_and_download_starts_at_zero() {
    let mut app = ready_app();
    app.spoofer_upload_input.value = "18446744073709551615".into();
    app.spoofer_download_input.value = "3".into();
    let config = start_config(&app, 1);
    assert_eq!(config.upload_rate_bps, u64::MAX);
    assert_eq!(config.download_rate_bps, 3072);
    assert_eq!(config.initial_downloaded, 0);
    assert_eq!(config.port, 10001);
}

#[test]
fn spoofer_enter_port_in_range() {
    let mut app = ready_app();
    match key_spoofer(&mut app, key(KeyCode::Enter), 123) {
        Some(Action::StartSpoofer { config }) => {
            assert_eq!(config.port, 10123);
            assert_eq!(config.upload_rate_bps, 102_400);
        }
        other => panic!("unexpected {other:?}"),
    }
    // The same state, event and seed give the same answer.
    let mut again = ready_app();
    assert_eq!(
        key_spoofer(&mut again, key(KeyCode::Enter), 123),
        Some(Action::StartSpoofer { config: start_config(&ready_app(), 123) })
    );
    // Through the dispatcher the port comes from a random draw.
    let mut app = ready_app();
    match handle_event(&mut app, key(KeyCode::Enter)) {
        Some(Action::StartSpoofer { config }) => assert!((10000..=65534).contains(&config.port)),
        other => panic!("unexpected {other:?}"),
    }
}

#[test]
fn typed_char_cases() {
    let mut app = App::new();
    assert_eq!(typed_char(&app, &key(KeyCode::Char('x'))), None);
    app.open_add_dialog();
    assert_eq!(typed_char(&app, &key(KeyCode::Char('x'))), Some('x'));
    assert_eq!(typed_char(&app, &ctrl(KeyCode::Char('w'))), None);
    assert_eq!(typed_char(&app, &ctrl(KeyCode::Char('z'))), Some('z'));
    let mut app = ready_app();
    assert_eq!(typed_char(&app, &key(KeyCode::Char('x'))), None);
    assert_eq!(typed_char(&app, &key(KeyCode::Char('7'))), Some('7'));
    app.spoofer_focused_field = Some(SpooferField::TrackerUrl);
    assert_eq!(typed_char(&app, &key(KeyCode::Char('x'))), Some('x'));
}

#[test]
fn spoofer_enter_without_info_hash_sets_error() {
    let mut app = ready_app();
    app.spoofer_info_hash = String::new();
    assert_eq!(key_spoofer(&mut app, key(KeyCode::Enter), 0), None);
    assert_eq!(
        app.status_message.as_deref(),
        Some("Error: tracker URL and torrent info hash are required.")
    );
}

#[test]
fn spoofer_s_without_session_does_nothing() {
    let mut app = ready_app();
    app.spoofer_focused_field = None;
    assert_eq!(key_spoofer(&mut app, key(KeyCode::Char('s')), 0), None);
    assert_eq!(key_spoofer(&mut app, ctrl(KeyCode::Char('c')), 0), None);
    assert_eq!(app.spoofer_client_idx, 5);
}

#[test]
fn spoofer_t_cycles_tracker() {
    let mut app = ready_app();
    app.spoofer_focused_field = None;
    app.spoofer_tracker_urls = vec!["http://a".into(), "http://b".into()];
    key_spoofer(&mut app, key(KeyCode::Char('t')), 0);
    assert_eq!(app.spoofer_tracker_input.value, "http://b");
    assert_eq!(app.spoofer_tracker_input.cursor, 8);
}

#[test]
fn spoofer_field_editing_keys() {
    let mut app = ready_app();
    app.spoofer_focused_field = Some(SpooferField::TrackerUrl);
    app.spoofer_tracker_input.value = "abc".into();
    app.spoofer_tracker_input.cursor = 1;
    key_spoofer(&mut app, key(KeyCode::End), 0);
    assert_eq!(app.spoofer_tracker_input.cursor, 3);
    key_spoofer(&mut app, key(KeyCode::Backspace), 0);
    assert_eq!(app.spoofer_tracker_input.value, "ab");
    key_spoofer(&mut app, key(KeyCode::Home), 0);
    assert_eq!(app.spoofer_tracker_input.cursor, 0);
    key_spoofer(&mut app, key(KeyCode::Right), 0);
    assert_eq!(app.spoofer_tracker_input.cursor, 1);
    app.spoofer_focused_field = None;
    key_spoofer(&mut app, key(KeyCode::Home), 0);
    key_spoofer(&mut app, key(KeyCode::Backspace), 0);
    assert_eq!((app.spoofer_tracker_input.value.as_str(), app.spoofer_tracker_input.cursor), ("ab", 1));
}

#[test]
fn handle_event_dispatches_by_tab_and_dialog() {
    let mut app = app_with_torrents(2);
    assert_eq!(handle_event(&mut app, key(KeyCode::Char('d'))), None);
    assert!(matches!(app.mode, AppMode::ConfirmRemove { torrent_id: 0, delete_files: false }));
    handle_event(&mut app, key(KeyCode::Char(' ')));
    assert_eq!(
        handle_event(&mut app, key(KeyCode::Enter)),
        Some(Action::Remove { id: 0, delete_files: true })
    );
    assert_eq!(app.mode, AppMode::Normal);
    handle_event(&mut app, key(KeyCode::Char('a')));
    handle_event(&mut app, key(KeyCode::Char('q')));
    assert_eq!(app.add_input.value, "q");
    handle_event(&mut app, key(KeyCode::Esc));
    handle_event(&mut app, key(KeyCode::Right));
    assert_eq!(app.view, AppView::Spoofer);
    assert_eq!(handle_event(&mut app, key(KeyCode::Char('q'))), None);
}

#[test]
fn outcomes_update_state() {
    let mut app = app_with_torrents(1);
    apply_outcome(&mut app, Outcome::Paused(Err("no such torrent".into())));
    assert_eq!(app.status_message.as_deref(), Some("Error: no such torrent"));
    apply_outcome(&mut app, Outcome::Resumed(Ok(())));
    assert_eq!(app.status_message, None);
    app.open_add_dialog();
    apply_outcome(&mut app, Outcome::Added(Err("bad path".into())));
    assert_eq!(app.mode, AppMode::AddDialog);
    assert_eq!(app.status_message.as_deref(), Some("Error: bad path"));
    apply_outcome(&mut app, Outcome::Added(Ok(())));
    assert_eq!(app.mode, AppMode::Normal);
    assert_eq!(app.status_message.as_deref(), Some("Torrent added."));
    apply_outcome(&mut app, Outcome::Removed(Ok(())));
    assert_eq!(app.status_message.as_deref(), Some("Torrent removed."));
    apply_outcome(&mut app, Outcome::SpooferStarted);
    assert!(app.spoofer_running);
    assert_eq!(app.status_message.as_deref(), Some("Ratio boost started."));
    apply_outcome(&mut app, Outcome::SpooferStopped);
    assert!(!app.spoofer_running);
    assert_eq!(app.status_message.as_deref(), Some("Ratio boost stopped."));
    apply_outcome(
        &mut app,
        Outcome::SpooferOpened {
            torrent_id: 0,
            meta: Some(TorrentMeta {
                info_hash_hex: "ab".into(),
                total_bytes: 3,
                tracker_urls: vec!["http://x".into()],
            }),
        },
    );
    assert_eq!(app.view, AppView::Spoofer);
    assert_eq!(app.spoofer_torrent_name.as_deref(), Some("t0"));
    assert_eq!(app.spoofer_tracker_input.value, "http://x");
    apply_outcome(&mut app, Outcome::Quit);
    assert!(app.should_quit);
}
