use synsekai::input::InputState;
use synsekai::types::{ClientProfile, TorrentStatus};

#[test]
fn input_state_push_and_backspace() {
    let mut s = InputState::default();
    s.push('h');
    s.push('i');
    assert_eq!(s.value, "hi");
    s.backspace();
    assert_eq!(s.value, "h");
}

#[test]
fn input_state_clear() {
    let mut s = InputState {
        value: "hello".into(),
        cursor: 5,
    };
    s.clear();
    assert_eq!(s.value, "");
    assert_eq!(s.cursor, 0);
}

#[test]
fn torrent_status_as_str() {
    assert_eq!(TorrentStatus::Initializing.as_str(), "Init");
    assert_eq!(TorrentStatus::Downloading.as_str(), "DL");
    assert_eq!(TorrentStatus::Seeding.as_str(), "Seed");
    assert_eq!(TorrentStatus::Paused.as_str(), "Paused");
    assert_eq!(TorrentStatus::Error("oops".into()).as_str(), "Error");
}

#[test]
fn input_state_push_multibyte() {
    let mut s = InputState::default();
    s.push('é'); // 2-byte UTF-8
    assert_eq!(s.value, "é");
    assert_eq!(s.cursor, 2);
    s.backspace();
    assert_eq!(s.value, "");
    assert_eq!(s.cursor, 0);
}

#[test]
fn backspace_on_empty_is_noop() {
    let mut s = InputState::default();
    s.backspace(); // should not panic
    assert_eq!(s.value, "");
}

#[test]
fn move_left_and_right() {
    let mut s = InputState::default();
    s.push('a');
    s.push('b');
    s.push('c');
    assert_eq!(s.cursor, 3);
    s.move_left();
    assert_eq!(s.cursor, 2);
    s.move_right();
    assert_eq!(s.cursor, 3);
}

#[test]
fn move_left_clamps_at_zero() {
    let mut s = InputState::default();
    s.move_left();
    assert_eq!(s.cursor, 0);
}

#[test]
fn move_right_clamps_at_end() {
    let mut s = InputState::default();
    s.push('x');
    s.move_right(); // already at end
    assert_eq!(s.cursor, 1);
}

#[test]
fn move_left_right_multibyte() {
    let mut s = InputState::default();
    s.push('é'); // 2 bytes
    assert_eq!(s.cursor, 2);
    s.move_left();
    assert_eq!(s.cursor, 0);
    s.move_right();
    assert_eq!(s.cursor, 2);
}

#[test]
fn move_to_start_and_end() {
    let mut s = InputState::default();
    s.push('a');
    s.push('b');
    s.push('c');
    s.move_to_start();
    assert_eq!(s.cursor, 0);
    s.move_to_end();
    assert_eq!(s.cursor, 3);
}

#[test]
fn move_word_right_skips_word() {
    let mut s = InputState {
        value: "hello world".into(),
        cursor: 0,
    };
    s.move_word_right();
    assert_eq!(s.cursor, 5); // after "hello"
    s.move_word_right();
    assert_eq!(s.cursor, 11); // after "world"
}

#[test]
fn move_word_left_skips_word() {
    let mut s = InputState {
        value: "hello world".into(),
        cursor: 11,
    };
    s.move_word_left();
    assert_eq!(s.cursor, 6); // start of "world"
    s.move_word_left();
    assert_eq!(s.cursor, 0); // start of "hello"
}

#[test]
fn move_word_left_from_middle_of_word() {
    let mut s = InputState {
        value: "hello".into(),
        cursor: 3,
    };
    s.move_word_left();
    assert_eq!(s.cursor, 0);
}

#[test]
fn move_word_right_clamps_at_end() {
    let mut s = InputState {
        value: "hello".into(),
        cursor: 5,
    };
    s.move_word_right();
    assert_eq!(s.cursor, 5);
}

#[test]
fn move_word_left_clamps_at_start() {
    let mut s = InputState {
        value: "hello".into(),
        cursor: 0,
    };
    s.move_word_left();
    assert_eq!(s.cursor, 0);
}

#[test]
fn delete_word_back_removes_word() {
    let mut s = InputState {
        value: "hello world".into(),
        cursor: 11,
    };
    s.delete_word_back();
    assert_eq!(s.value, "hello ");
    assert_eq!(s.cursor, 6);
}

#[test]
fn delete_word_back_skips_spaces_first() {
    let mut s = InputState {
        value: "hello   ".into(),
        cursor: 8,
    };
    s.delete_word_back();
    assert_eq!(s.value, "");
    assert_eq!(s.cursor, 0);
}

#[test]
fn delete_word_forward_removes_word() {
    let mut s = InputState {
        value: "hello world".into(),
        cursor: 0,
    };
    s.delete_word_forward();
    assert_eq!(s.value, " world");
    assert_eq!(s.cursor, 0);
}

#[test]
fn delete_word_forward_skips_spaces_first() {
    let mut s = InputState {
        value: "   world".into(),
        cursor: 0,
    };
    s.delete_word_forward();
    assert_eq!(s.value, "");
    assert_eq!(s.cursor, 0);
}

#[test]
fn delete_to_end_truncates() {
    let mut s = InputState {
        value: "hello world".into(),
        cursor: 5,
    };
    s.delete_to_end();
    assert_eq!(s.value, "hello");
    assert_eq!(s.cursor, 5);
}

#[test]
fn delete_to_start_clears_before_cursor() {
    let mut s = InputState {
        value: "hello world".into(),
        cursor: 6,
    };
    s.delete_to_start();
    assert_eq!(s.value, "world");
    assert_eq!(s.cursor, 0);
}

#[test]
fn delete_word_back_on_empty_is_noop() {
    let mut s = InputState::default();
    s.delete_word_back();
    assert_eq!(s.value, "");
    assert_eq!(s.cursor, 0);
}

#[test]
fn delete_word_forward_on_empty_is_noop() {
    let mut s = InputState::default();
    s.delete_word_forward();
    assert_eq!(s.value, "");
}

// ── further cases ───────────────────────────────────────────────────────────

#[test]
fn push_in_the_middle_and_multibyte_words() {
    let mut s = InputState { value: "héllo wörld".into(), cursor: 0 };
    s.move_to_end();
    assert_eq!(s.cursor, "héllo wörld".len());
    s.move_word_left();
    assert_eq!(s.cursor, "héllo ".len());
    s.push('X');
    assert_eq!(s.value, "héllo Xwörld");
    s.move_left();
    s.move_left();
    assert_eq!(s.cursor, "héllo".len());
    s.backspace();
    assert_eq!(s.value, "héll Xwörld");
    s.delete_word_forward();
    assert_eq!(s.value, "héll");
}

#[test]
fn push_then_backspace_restores() {
    let mut s = InputState { value: "a€b".into(), cursor: 1 };
    s.push('ß');
    assert_eq!((s.value.as_str(), s.cursor), ("aß€b", 3));
    s.backspace();
    assert_eq!((s.value.as_str(), s.cursor), ("a€b", 1));
}

#[test]
fn move_right_then_left_restores() {
    let mut s = InputState { value: "a€b".into(), cursor: 1 };
    s.move_right();
    assert_eq!(s.cursor, 4);
    s.move_left();
    assert_eq!(s.cursor, 1);
}

#[test]
fn punctuation_separates_words() {
    let mut s = InputState { value: "/tmp/my-file.torrent".into(), cursor: 20 };
    s.delete_word_back();
    assert_eq!(s.value, "/tmp/my-file.");
    s.move_word_left();
    assert_eq!(s.cursor, 8);
    s.move_to_start();
    s.move_word_right();
    assert_eq!(s.cursor, 4);
}

#[test]
fn delete_to_end_past_end_is_noop() {
    let mut s = InputState { value: "abc".into(), cursor: 3 };
    s.delete_to_end();
    assert_eq!(s.value, "abc");
}

#[test]
fn new_and_default_are_empty() {
    let s = InputState::new();
    assert_eq!((s.value.as_str(), s.cursor), ("", 0));
}

#[test]
fn client_profiles() {
    let all = ClientProfile::all();
    assert_eq!(all.len(), 3);
    assert_eq!(all[0], ClientProfile::default());
    assert_eq!(ClientProfile::QBittorrent4_6.peer_id_prefix(), "-qB4600-");
    assert_eq!(ClientProfile::UTorrent3_3_2.user_agent(), "uTorrent/3320(25302)");
    assert_eq!(ClientProfile::Transmission2_92.label(), "Transmission 2.92");
}
