use synsekai::app::{App, TorrentMeta};
use synsekai::types::{AppMode, AppView, ClientProfile, TorrentRow, TorrentStatus};

fn make_app_with_torrents(n: usize) -> App {
    let mut app = App::new();
    app.torrents = (0..n)
        .map(|i| TorrentRow {
            id: i,
            name: format!("torrent-{i}"),
            total_bytes: 1000,
            progress_bytes: 0,
            down_speed_bps: 0,
            peers_live: 0,
            peers_seen: 0,
            status: TorrentStatus::Downloading,
        })
        .collect();
    app
}

#[test]
fn select_next_on_empty_list_is_noop() {
    let mut app = App::new();
    app.select_next(); // should not panic, selected stays 0
    assert_eq!(app.selected, 0);
}

#[test]
fn select_next_clamps_at_end() {
    let mut app = make_app_with_torrents(3);
    app.selected = 2;
    app.select_next();
    assert_eq!(app.selected, 2); // does not wrap
}

#[test]
fn select_prev_clamps_at_zero() {
    let mut app = make_app_with_torrents(3);
    app.selected = 0;
    app.select_prev();
    assert_eq!(app.selected, 0);
}

#[test]
fn selected_torrent_id_returns_none_when_empty() {
    let app = App::new();
    assert!(app.selected_torrent_id().is_none());
}

#[test]
fn open_add_dialog_resets_input() {
    let mut app = make_app_with_torrents(1);
    app.add_input.push('x');
    app.open_add_dialog();
    assert_eq!(app.mode, AppMode::AddDialog);
    assert!(app.add_input.value.is_empty());
}

#[test]
fn open_confirm_remove_captures_selected_id() {
    let mut app = make_app_with_torrents(3);
    app.selected = 1;
    app.open_confirm_remove();
    assert!(matches!(
        app.mode,
        AppMode::ConfirmRemove {
            torrent_id: 1,
            delete_files: false
        }
    ));
}

#[test]
fn update_torrents_clamps_selected_when_list_shrinks() {
    let mut app = make_app_with_torrents(5);
    app.selected = 4;
    // shrink to 2
    let short: Vec<_> = (0..2)
        .map(|i| TorrentRow {
            id: i,
            name: format!("t{i}"),
            total_bytes: 0,
            progress_bytes: 0,
            down_speed_bps: 0,
            peers_live: 0,
            peers_seen: 0,
            status: TorrentStatus::Downloading,
        })
        .collect();
    app.update_torrents(short);
    assert_eq!(app.selected, 1); // clamped to last index
}

#[test]
fn update_torrents_resets_selected_when_list_becomes_empty() {
    let mut app = make_app_with_torrents(3);
    app.selected = 2;
    app.update_torrents(vec![]);
    assert_eq!(app.selected, 0);
}

#[test]
fn selected_torrent_id_returns_correct_id() {
    let mut app = make_app_with_torrents(3);
    app.selected = 2;
    assert_eq!(app.selected_torrent_id(), Some(2));
}

#[test]
fn dismiss_dialog_returns_to_normal() {
    let mut app = make_app_with_torrents(1);
    app.open_add_dialog();
    app.dismiss_dialog();
    assert_eq!(app.mode, AppMode::Normal);
}

#[test]
fn toggle_delete_files_flips_flag() {
    let mut app = make_app_with_torrents(1);
    app.selected = 0;
    app.open_confirm_remove();
    app.toggle_delete_files();
    assert!(matches!(
        app.mode,
        AppMode::ConfirmRemove {
            delete_files: true,
            ..
        }
    ));
    app.toggle_delete_files();
    assert!(matches!(
        app.mode,
        AppMode::ConfirmRemove {
            delete_files: false,
            ..
        }
    ));
}

// ── further cases ───────────────────────────────────────────────────────────

#[test]
fn new_app_defaults() {
    let app = App::default();
    assert_eq!(app.view, AppView::Downloader);
    assert_eq!(app.mode, AppMode::Normal);
    assert!(!app.should_quit && !app.spoofer_running);
    assert_eq!(app.selected_spoofer_client(), ClientProfile::QBittorrent4_6);
}

#[test]
fn select_next_then_prev_returns() {
    let mut app = make_app_with_torrents(3);
    app.selected = 1;
    app.select_next();
    assert_eq!(app.selected, 2);
    app.select_prev();
    assert_eq!(app.selected, 1);
}

#[test]
fn update_keeps_selection_in_list() {
    let mut app = make_app_with_torrents(2);
    app.selected = 1;
    let rows = make_app_with_torrents(4).torrents;
    app.update_torrents(rows);
    assert_eq!(app.selected, 1);
    assert_eq!(app.selected_torrent_id(), Some(1));
}

#[test]
fn open_confirm_remove_without_selection_does_nothing() {
    let mut app = App::new();
    app.open_confirm_remove();
    assert_eq!(app.mode, AppMode::Normal);
    app.toggle_delete_files();
    assert_eq!(app.mode, AppMode::Normal);
}

#[test]
fn toggle_view_twice_returns() {
    let mut app = App::new();
    app.toggle_view();
    assert_eq!(app.view, AppView::Spoofer);
    app.toggle_view();
    assert_eq!(app.view, AppView::Downloader);
}

#[test]
fn client_cycles_through_all_profiles() {
    let mut app = App::new();
    let mut seen = Vec::new();
    for _ in 0..3 {
        seen.push(app.selected_spoofer_client());
        app.cycle_spoofer_client();
    }
    assert_eq!(seen, ClientProfile::all().to_vec());
    assert_eq!(app.spoofer_client_idx, 0);
    app.spoofer_client_idx = usize::MAX;
    app.cycle_spoofer_client();
    assert_eq!(app.spoofer_client_idx, 1);
}

fn meta(urls: &[&str]) -> TorrentMeta {
    TorrentMeta {
        info_hash_hex: "aabbccddeeff00112233445566778899aabbccdd".into(),
        total_bytes: 4242,
        tracker_urls: urls.iter().map(|u| u.to_string()).collect(),
    }
}

#[test]
fn enter_spoofer_view_fills_from_meta() {
    let mut app = make_app_with_torrents(3);
    app.spoofer_upload_input.push('5');
    app.spoofer_tracker_idx = 7;
    app.enter_spoofer_view(Some(2), Some(meta(&["http://a/ann", "http://b/ann"])));
    assert_eq!(app.view, AppView::Spoofer);
    assert_eq!(app.spoofer_torrent_name.as_deref(), Some("torrent-2"));
    assert_eq!(app.spoofer_total_bytes, 4242);
    assert_eq!(app.spoofer_tracker_idx, 0);
    assert_eq!(app.spoofer_upload_input.value, "");
    assert_eq!(app.spoofer_tracker_input.value, "http://a/ann");
    assert_eq!(app.spoofer_tracker_input.cursor, "http://a/ann".len());
    app.cycle_spoofer_tracker();
    assert_eq!(app.spoofer_tracker_input.value, "http://b/ann");
    app.cycle_spoofer_tracker();
    assert_eq!(app.spoofer_tracker_input.value, "http://a/ann");
    assert_eq!(app.spoofer_tracker_idx, 0);
}

#[test]
fn enter_spoofer_view_without_meta_clears() {
    let mut app = make_app_with_torrents(1);
    app.spoofer_info_hash = "x".into();
    app.spoofer_total_bytes = 9;
    app.enter_spoofer_view(Some(5), None);
    assert_eq!(app.spoofer_torrent_name, None);
    assert_eq!(app.spoofer_info_hash, "");
    assert_eq!(app.spoofer_total_bytes, 0);
    assert!(app.spoofer_tracker_urls.is_empty());
    assert_eq!(app.spoofer_tracker_input.value, "");
    app.cycle_spoofer_tracker();
    assert_eq!(app.spoofer_tracker_input.value, "");
}
