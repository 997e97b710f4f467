//! A single-line text input with a readline-style cursor.
//!
//! The cursor is a byte offset into the UTF-8 text, as in the standard
//! library's `String` API. A cursor is well placed when it lies on a
//! character boundary; the editing operations below keep it so, and the
//! contracts describe each operation on the text as a sequence of characters.
use crate::strings::{
    is_alphanumeric, skip_while_back, skip_while_fwd, string_clear, string_drain, string_insert,
    string_remove, string_truncate, unicode_alphanumeric,
};
use crate::unicode::{
    byte_len, char_index_at, char_width, chars_of, chars_within, floor_boundary, is_boundary,
    lemma_boundary_facts, lemma_chars_within, lemma_chars_within_between, lemma_chars_within_offset,
    lemma_offset_ends, lemma_byte_len_cut, lemma_byte_len_insert,
    lemma_byte_len_subrange, lemma_offset_monotone, lemma_offset_step,
    next_boundary, offset_in, offset_of, str_byte_len, utf8_width,
};
use vstd::prelude::*;

verus! {

/// The text of an input field and the byte offset of its cursor.
#[derive(Debug, Clone)]
pub struct InputState {
    pub value: String,
    pub cursor: usize,
}

/// Characters that count as part of a word.
pub open spec fn word_char() -> spec_fn(char) -> bool {
    |c: char| unicode_alphanumeric(c)
}

/// Characters that separate words.
pub open spec fn non_word_char() -> spec_fn(char) -> bool {
    |c: char| !unicode_alphanumeric(c)
}

/// The character index that a backward word motion from index `k` reaches:
/// back over separators, then back over the word before them.
pub open spec fn word_start_before(s: Seq<char>, k: int) -> int {
    skip_while_back(s, 0, skip_while_back(s, 0, k, non_word_char()), word_char())
}

/// The character index that a forward word motion from index `k` reaches:
/// over separators, then over the word after them.
pub open spec fn word_end_after(s: Seq<char>, k: int) -> int {
    skip_while_fwd(s, skip_while_fwd(s, k, s.len() as int, non_word_char()), s.len() as int, word_char())
}

/// Text and cursor after typing `c` at the cursor.
pub open spec fn push_model(s: Seq<char>, cur: int, c: char) -> (Seq<char>, int) {
    (s.insert(chars_within(s, cur) as int, c), cur + utf8_width(c))
}

/// Text and cursor after deleting the character before the cursor.
pub open spec fn backspace_model(s: Seq<char>, cur: int) -> (Seq<char>, int) {
    if cur == 0 {
        (s, 0)
    } else {
        let k = chars_within(s, cur - 1) as int;
        (s.remove(k), offset_of(s, k) as int)
    }
}

/// The cursor after moving one character left.
pub open spec fn move_left_model(s: Seq<char>, cur: int) -> int {
    if cur == 0 {
        0
    } else {
        floor_boundary(s, cur - 1) as int
    }
}

/// The cursor after moving one character right.
pub open spec fn move_right_model(s: Seq<char>, cur: int) -> int {
    if cur >= byte_len(s) {
        cur
    } else {
        next_boundary(s, cur) as int
    }
}

/// The cursor after moving one word left.
pub open spec fn move_word_left_model(s: Seq<char>, cur: int) -> int {
    offset_of(s, word_start_before(s, chars_within(s, cur) as int)) as int
}

/// The cursor after moving one word right.
pub open spec fn move_word_right_model(s: Seq<char>, cur: int) -> int {
    offset_of(s, word_end_after(s, chars_within(s, cur) as int)) as int
}

/// Text and cursor after deleting the word before the cursor.
pub open spec fn delete_word_back_model(s: Seq<char>, cur: int) -> (Seq<char>, int) {
    let k = chars_within(s, cur) as int;
    let i = word_start_before(s, k);
    (s.take(i) + s.skip(k), offset_of(s, i) as int)
}

/// Text after deleting the word after the cursor.
pub open spec fn delete_word_forward_model(s: Seq<char>, cur: int) -> Seq<char> {
    let k = chars_within(s, cur) as int;
    s.take(k) + s.skip(word_end_after(s, k))
}

/// Text after deleting from the cursor to the end.
pub open spec fn delete_to_end_model(s: Seq<char>, cur: int) -> Seq<char> {
    if cur >= byte_len(s) {
        s
    } else {
        s.take(chars_within(s, cur) as int)
    }
}

/// Text after deleting from the start to the cursor.
pub open spec fn delete_to_start_model(s: Seq<char>, cur: int) -> Seq<char> {
    s.skip(chars_within(s, cur) as int)
}

/// `new` is `old` after `push(c)`.
pub open spec fn is_push(old: InputState, new: InputState, c: char) -> bool {
    (new.value@, new.cursor as int) == push_model(old.value@, old.cursor as int, c)
}

/// `new` is `old` after `backspace()`.
pub open spec fn is_backspace(old: InputState, new: InputState) -> bool {
    (new.value@, new.cursor as int) == backspace_model(old.value@, old.cursor as int)
}

/// `new` is `old` after `move_left()`.
pub open spec fn is_move_left(old: InputState, new: InputState) -> bool {
    new.value@ == old.value@ && new.cursor == move_left_model(old.value@, old.cursor as int)
}

/// `new` is `old` after `move_right()`.
pub open spec fn is_move_right(old: InputState, new: InputState) -> bool {
    new.value@ == old.value@ && new.cursor == move_right_model(old.value@, old.cursor as int)
}

/// `new` is `old` after `move_to_start()`.
pub open spec fn is_move_to_start(old: InputState, new: InputState) -> bool {
    new.value@ == old.value@ && new.cursor == 0
}

/// `new` is `old` after `move_to_end()`.
pub open spec fn is_move_to_end(old: InputState, new: InputState) -> bool {
    new.value@ == old.value@ && new.cursor == byte_len(old.value@)
}

/// `new` is `old` after `move_word_left()`.
pub open spec fn is_move_word_left(old: InputState, new: InputState) -> bool {
    new.value@ == old.value@ && new.cursor == move_word_left_model(old.value@, old.cursor as int)
}

/// `new` is `old` after `move_word_right()`.
pub open spec fn is_move_word_right(old: InputState, new: InputState) -> bool {
    new.value@ == old.value@ && new.cursor == move_word_right_model(old.value@, old.cursor as int)
}

/// `new` is `old` after `delete_word_back()`.
pub open spec fn is_delete_word_back(old: InputState, new: InputState) -> bool {
    (new.value@, new.cursor as int) == delete_word_back_model(old.value@, old.cursor as int)
}

/// `new` is `old` after `delete_word_forward()`.
pub open spec fn is_delete_word_forward(old: InputState, new: InputState) -> bool {
    new.value@ == delete_word_forward_model(old.value@, old.cursor as int) && new.cursor
        == old.cursor
}

/// `new` is `old` after `delete_to_end()`.
pub open spec fn is_delete_to_end(old: InputState, new: InputState) -> bool {
    new.value@ == delete_to_end_model(old.value@, old.cursor as int) && new.cursor == old.cursor
}

/// `new` is `old` after `delete_to_start()`.
pub open spec fn is_delete_to_start(old: InputState, new: InputState) -> bool {
    new.value@ == delete_to_start_model(old.value@, old.cursor as int) && new.cursor == 0
}

/// `new` is empty with the cursor at the start.
pub open spec fn is_cleared(new: InputState) -> bool {
    new.value@ == Seq::<char>::empty() && new.cursor == 0
}

impl InputState {
    /// The cursor is well placed and the text's length is representable.
    pub open spec fn ok(self) -> bool {
        self.wf() && self.in_range()
    }

    /// The cursor lies on a character boundary of the text.
    pub open spec fn wf(self) -> bool {
        is_boundary(self.value@, self.cursor as int)
    }

    /// The text's byte length is representable (always so for a `String` in memory).
    pub open spec fn in_range(self) -> bool {
        byte_len(self.value@) <= usize::MAX
    }

    /// The character index of the cursor.
    pub open spec fn pos(self) -> nat {
        chars_within(self.value@, self.cursor as int)
    }

    /// An empty input with the cursor at the start.
    pub fn new() -> (r: Self)
        ensures
            r.value@ == Seq::<char>::empty(),
            r.cursor == 0,
            r.wf(),
    {
        proof {
            lemma_offset_ends(Seq::<char>::empty());
        }
        InputState { value: String::new(), cursor: 0 }
    }

    /// Inserts `c` at the cursor and moves the cursor past it.
    pub fn push(&mut self, c: char)
        requires
            old(self).wf(),
            byte_len(old(self).value@) + utf8_width(c) <= usize::MAX,
        ensures
            (final(self).value@, final(self).cursor as int) == push_model(
                old(self).value@,
                old(self).cursor as int,
                c,
            ),
            final(self).ok(),
    {
        let ghost s = self.value@;
        let ghost k = chars_within(s, self.cursor as int) as int;
        proof {
            lemma_boundary_facts(s, self.cursor as int);
            lemma_byte_len_insert(s, k, c);
        }
        string_insert(&mut self.value, self.cursor, c);
        self.cursor = self.cursor + char_width(c);
        proof {
            let t = self.value@;
            assert(t.take(k) =~= s.take(k));
            assert(t[k] == c);
            lemma_offset_step(t, k);
            lemma_chars_within_offset(t, k + 1);
        }
    }

    /// Deletes the character before the cursor, if any, and moves the cursor
    /// to where that character started.
    pub fn backspace(&mut self)
        requires
            old(self).cursor <= byte_len(old(self).value@),
            old(self).in_range(),
        ensures
            (final(self).value@, final(self).cursor as int) == backspace_model(
                old(self).value@,
                old(self).cursor as int,
            ),
            final(self).ok(),
    {
        let ghost s = self.value@;
        if self.cursor == 0 {
            proof {
                lemma_chars_within_offset(s, 0);
                lemma_offset_ends(s);
            }
            return;
        }
        let v = chars_of(self.value.as_str());
        let k = char_index_at(&v, self.cursor - 1);
        let idx = offset_in(&v, k);
        proof {
            lemma_chars_within(s, self.cursor - 1);
            lemma_offset_ends(s);
            if k == s.len() {
                assert(false);
            }
            lemma_chars_within_offset(s, k as int);
            assert(s.remove(k as int) =~= s.take(k as int) + s.skip(k + 1));
            lemma_byte_len_cut(s, k as int, k + 1);
        }
        string_remove(&mut self.value, idx);
        self.cursor = idx;
        proof {
            let t = self.value@;
            assert(t.take(k as int) =~= s.take(k as int));
            lemma_chars_within_offset(t, k as int);
        }
    }

    /// Moves the cursor one character to the left (no change at the start).
    pub fn move_left(&mut self)
        requires
            old(self).in_range(),
        ensures
            final(self).value@ == old(self).value@,
            final(self).cursor == move_left_model(old(self).value@, old(self).cursor as int),
            final(self).wf(),
    {
        if self.cursor == 0 {
            proof {
                lemma_chars_within_offset(self.value@, 0);
                lemma_offset_ends(self.value@);
            }
            return;
        }
        let v = chars_of(self.value.as_str());
        let k = char_index_at(&v, self.cursor - 1);
        proof {
            lemma_chars_within_offset(v@, k as int);
        }
        self.cursor = offset_in(&v, k);
    }

    /// Moves the cursor one character to the right (no change at the end).
    pub fn move_right(&mut self)
        requires
            old(self).in_range(),
        ensures
            final(self).value@ == old(self).value@,
            final(self).cursor == move_right_model(old(self).value@, old(self).cursor as int),
            old(self).cursor < byte_len(old(self).value@) ==> final(self).wf(),
            old(self).wf() ==> final(self).wf(),
    {
        let len = str_byte_len(self.value.as_str());
        if self.cursor >= len {
            return;
        }
        let v = chars_of(self.value.as_str());
        let k = char_index_at(&v, self.cursor);
        proof {
            lemma_chars_within(v@, self.cursor as int);
            lemma_offset_ends(v@);
            if k == v.len() {
                assert(false);
            }
            lemma_chars_within_offset(v@, k + 1);
        }
        self.cursor = offset_in(&v, k + 1);
    }

    /// Empties the text and puts the cursor at the start.
    pub fn clear(&mut self)
        ensures
            final(self).value@ == Seq::<char>::empty(),
            final(self).cursor == 0,
            final(self).wf(),
    {
        string_clear(&mut self.value);
        self.cursor = 0;
        proof {
            lemma_offset_ends(Seq::<char>::empty());
        }
    }

    /// Puts the cursor at the start.
    pub fn move_to_start(&mut self)
        ensures
            final(self).value@ == old(self).value@,
            final(self).cursor == 0,
            final(self).wf(),
    {
        self.cursor = 0;
        proof {
            lemma_chars_within_offset(self.value@, 0);
            lemma_offset_ends(self.value@);
        }
    }

    /// Puts the cursor at the end.
    pub fn move_to_end(&mut self)
        requires
            old(self).in_range(),
        ensures
            final(self).value@ == old(self).value@,
            final(self).cursor == byte_len(old(self).value@),
            final(self).wf(),
    {
        self.cursor = str_byte_len(self.value.as_str());
        proof {
            lemma_offset_ends(self.value@);
            lemma_chars_within_offset(self.value@, self.value@.len() as int);
        }
    }

    /// The character index that a backward word motion reaches from the cursor.
    fn word_left_index(&self, v: &Vec<char>) -> (i: usize)
        requires
            self.wf(),
            self.in_range(),
            v@ == self.value@,
        ensures
            i == word_start_before(v@, self.pos() as int),
            i <= self.pos(),
    {
        let k = char_index_at(v, self.cursor);
        let mut i = k;
        while i > 0 && !is_alphanumeric(v[i - 1])
            invariant
                i <= k <= v.len(),
                skip_while_back(v@, 0, i as int, non_word_char()) == skip_while_back(
                    v@,
                    0,
                    k as int,
                    non_word_char(),
                ),
            decreases i,
        {
            i = i - 1;
        }
        proof {
            if i > 0 {
                assert(!non_word_char()(v@[i - 1]));
            }
        }
        let ghost mid = i;
        while i > 0 && is_alphanumeric(v[i - 1])
            invariant
                i <= mid <= k <= v.len(),
                mid == skip_while_back(v@, 0, k as int, non_word_char()),
                skip_while_back(v@, 0, i as int, word_char()) == skip_while_back(
                    v@,
                    0,
                    mid as int,
                    word_char(),
                ),
            decreases i,
        {
            i = i - 1;
        }
        proof {
            if i > 0 {
                assert(!word_char()(v@[i - 1]));
            }
        }
        i
    }

    /// The character index that a forward word motion reaches from the cursor.
    fn word_right_index(&self, v: &Vec<char>) -> (j: usize)
        requires
            self.wf(),
            self.in_range(),
            v@ == self.value@,
        ensures
            j == word_end_after(v@, self.pos() as int),
            self.pos() <= j <= v.len(),
    {
        let k = char_index_at(v, self.cursor);
        let mut j = k;
        while j < v.len() && !is_alphanumeric(v[j])
            invariant
                k <= j <= v.len(),
                skip_while_fwd(v@, j as int, v.len() as int, non_word_char()) == skip_while_fwd(
                    v@,
                    k as int,
                    v.len() as int,
                    non_word_char(),
                ),
            decreases v.len() - j,
        {
            j = j + 1;
        }
        proof {
            if j < v.len() {
                assert(!non_word_char()(v@[j as int]));
            }
        }
        let ghost mid = j;
        while j < v.len() && is_alphanumeric(v[j])
            invariant
                k <= mid <= j <= v.len(),
                mid == skip_while_fwd(v@, k as int, v.len() as int, non_word_char()),
                skip_while_fwd(v@, j as int, v.len() as int, word_char()) == skip_while_fwd(
                    v@,
                    mid as int,
                    v.len() as int,
                    word_char(),
                ),
            decreases v.len() - j,
        {
            j = j + 1;
        }
        proof {
            if j < v.len() {
                assert(!word_char()(v@[j as int]));
            }
        }
        j
    }

    /// Moves the cursor left by one word (readline's Ctrl+Left): back over
    /// separators, then back to the start of the word before them.
    pub fn move_word_left(&mut self)
        requires
            old(self).wf(),
            old(self).in_range(),
        ensures
            final(self).value@ == old(self).value@,
            final(self).cursor == move_word_left_model(old(self).value@, old(self).cursor as int),
            final(self).cursor <= old(self).cursor,
            final(self).wf(),
    {
        let v = chars_of(self.value.as_str());
        let i = self.word_left_index(&v);
        proof {
            lemma_boundary_facts(v@, self.cursor as int);
            lemma_offset_monotone(v@, i as int, self.pos() as int);
            lemma_chars_within_offset(v@, i as int);
        }
        self.cursor = offset_in(&v, i);
    }

    /// Moves the cursor right by one word (readline's Ctrl+Right): over
    /// separators, then to the end of the word after them.
    pub fn move_word_right(&mut self)
        requires
            old(self).wf(),
            old(self).in_range(),
        ensures
            final(self).value@ == old(self).value@,
            final(self).cursor == move_word_right_model(old(self).value@, old(self).cursor as int),
            final(self).cursor >= old(self).cursor,
            final(self).wf(),
    {
        let v = chars_of(self.value.as_str());
        let j = self.word_right_index(&v);
        proof {
            lemma_boundary_facts(v@, self.cursor as int);
            lemma_offset_monotone(v@, self.pos() as int, j as int);
            lemma_chars_within_offset(v@, j as int);
        }
        self.cursor = offset_in(&v, j);
    }

    /// Deletes the word before the cursor (Ctrl+Backspace / Ctrl+W).
    pub fn delete_word_back(&mut self)
        requires
            old(self).wf(),
            old(self).in_range(),
        ensures
            (final(self).value@, final(self).cursor as int) == delete_word_back_model(
                old(self).value@,
                old(self).cursor as int,
            ),
            final(self).ok(),
    {
        let ghost s = self.value@;
        let ghost k = self.pos() as int;
        let old_cursor = self.cursor;
        self.move_word_left();
        let ghost i = word_start_before(s, k);
        proof {
            lemma_boundary_facts(s, old_cursor as int);
            lemma_skip_back_bounds2(s, k);
            lemma_chars_within_offset(s, i);
            lemma_byte_len_cut(s, i, k);
        }
        string_drain(&mut self.value, self.cursor, old_cursor);
        proof {
            let t = self.value@;
            assert(t.take(i) =~= s.take(i));
            lemma_chars_within_offset(t, i);
        }
    }

    /// Deletes the word after the cursor (Ctrl+Delete).
    pub fn delete_word_forward(&mut self)
        requires
            old(self).wf(),
            old(self).in_range(),
        ensures
            final(self).value@ == delete_word_forward_model(old(self).value@, old(self).cursor as int),
            final(self).cursor == old(self).cursor,
            final(self).ok(),
    {
        let ghost s = self.value@;
        let ghost k = self.pos() as int;
        let v = chars_of(self.value.as_str());
        let j = self.word_right_index(&v);
        let end = offset_in(&v, j);
        proof {
            lemma_boundary_facts(s, self.cursor as int);
            lemma_offset_monotone(s, k, j as int);
            lemma_chars_within_offset(s, j as int);
            lemma_byte_len_cut(s, k, j as int);
        }
        string_drain(&mut self.value, self.cursor, end);
        proof {
            let t = self.value@;
            assert(t.take(k) =~= s.take(k));
            lemma_chars_within_offset(t, k);
        }
    }

    /// Deletes from the cursor to the end of the text (Ctrl+K).
    pub fn delete_to_end(&mut self)
        requires
            old(self).cursor >= byte_len(old(self).value@) || old(self).wf(),
        ensures
            final(self).value@ == delete_to_end_model(old(self).value@, old(self).cursor as int),
            final(self).cursor == old(self).cursor,
            old(self).wf() ==> final(self).wf(),
            old(self).in_range() ==> final(self).in_range(),
    {
        let ghost s = self.value@;
        string_truncate(&mut self.value, self.cursor);
        proof {
            if self.cursor < byte_len(s) {
                let k = chars_within(s, self.cursor as int) as int;
                lemma_boundary_facts(s, self.cursor as int);
                assert(self.value@.take(k) =~= s.take(k));
                assert(self.value@ =~= self.value@.take(k));
                lemma_chars_within_offset(self.value@, k);
                lemma_byte_len_subrange(s, 0, k);
                assert(s.subrange(0, k) =~= self.value@);
            }
        }
    }

    /// Deletes from the start of the text to the cursor (Ctrl+U).
    pub fn delete_to_start(&mut self)
        requires
            old(self).wf(),
        ensures
            final(self).value@ == delete_to_start_model(old(self).value@, old(self).cursor as int),
            final(self).cursor == 0,
            final(self).wf(),
            old(self).in_range() ==> final(self).in_range(),
    {
        let ghost s = self.value@;
        proof {
            lemma_chars_within_offset(s, 0);
            lemma_offset_ends(s);
            lemma_boundary_facts(s, self.cursor as int);
            lemma_byte_len_cut(s, 0, chars_within(s, self.cursor as int) as int);
        }
        string_drain(&mut self.value, 0, self.cursor);
        self.cursor = 0;
        proof {
            assert(s.take(0) + s.skip(chars_within(s, old(self).cursor as int) as int) =~= s.skip(
                chars_within(s, old(self).cursor as int) as int,
            ));
            lemma_chars_within_offset(self.value@, 0);
            lemma_offset_ends(self.value@);
        }
    }
}

impl Default for InputState {
    fn default() -> (r: Self)
        ensures
            r.value@ == Seq::<char>::empty(),
            r.cursor == 0,
    {
        InputState::new()
    }
}

/// Typing a character and then deleting it with backspace gives back the
/// text and the cursor from before.
pub proof fn law_push_then_backspace(s: Seq<char>, cur: int, c: char)
    requires
        is_boundary(s, cur),
    ensures
        backspace_model(push_model(s, cur, c).0, push_model(s, cur, c).1) == (s, cur),
{
    let k = chars_within(s, cur) as int;
    lemma_boundary_facts(s, cur);
    let t = s.insert(k, c);
    assert(t.take(k) =~= s.take(k));
    assert(t[k] == c);
    lemma_offset_step(t, k);
    crate::unicode::lemma_width_range(c);
    lemma_chars_within_between(t, k, cur + utf8_width(c) - 1);
    assert(t.remove(k) =~= s);
}

/// Moving right and then left brings a well-placed cursor back, unless it was at the end.
pub proof fn law_move_right_then_left(s: Seq<char>, cur: int)
    requires
        is_boundary(s, cur),
        cur < byte_len(s),
    ensures
        move_left_model(s, move_right_model(s, cur)) == cur,
{
    let k = chars_within(s, cur) as int;
    lemma_boundary_facts(s, cur);
    lemma_offset_step(s, k);
    crate::unicode::lemma_width_range(s[k]);
    lemma_chars_within_between(s, k, offset_of(s, k + 1) - 1);
}

/// Moving left and then right brings a well-placed cursor back, unless it was at the start.
pub proof fn law_move_left_then_right(s: Seq<char>, cur: int)
    requires
        is_boundary(s, cur),
        cur > 0,
    ensures
        move_right_model(s, move_left_model(s, cur)) == cur,
{
    let k = chars_within(s, cur) as int;
    lemma_boundary_facts(s, cur);
    lemma_offset_ends(s);
    assert(k > 0);
    lemma_offset_step(s, k - 1);
    crate::unicode::lemma_width_range(s[k - 1]);
    lemma_chars_within_between(s, k - 1, cur - 1);
    lemma_chars_within_offset(s, k - 1);
    lemma_offset_monotone(s, k, s.len() as int);
}

/// Deleting to the end and deleting to the start split the text at the
/// cursor: the two remainders, in order, make up the whole text.
pub proof fn law_split_at_cursor(s: Seq<char>, cur: int)
    requires
        is_boundary(s, cur),
    ensures
        delete_to_end_model(s, cur) + delete_to_start_model(s, cur) == s,
{
    let k = chars_within(s, cur) as int;
    lemma_boundary_facts(s, cur);
    if cur >= byte_len(s) {
        assert(s.skip(k) =~= Seq::<char>::empty());
    }
    assert(s.take(k) + s.skip(k) =~= s);
}

/// Deleting the word before the cursor removes exactly the characters that
/// a backward word motion passes over, and leaves the cursor where that motion stops.
pub proof fn law_delete_word_back_matches_motion(s: Seq<char>, cur: int)
    requires
        is_boundary(s, cur),
    ensures
        delete_word_back_model(s, cur).1 == move_word_left_model(s, cur),
        delete_word_back_model(s, cur).0 == s.take(chars_within(s, move_word_left_model(s, cur)) as int)
            + s.skip(chars_within(s, cur) as int),
{
    let k = chars_within(s, cur) as int;
    lemma_boundary_facts(s, cur);
    lemma_skip_back_bounds2(s, k);
    lemma_chars_within_offset(s, word_start_before(s, k));
}

/// The backward word motion lands at or before where it starts.
proof fn lemma_skip_back_bounds2(s: Seq<char>, k: int)
    requires
        0 <= k <= s.len(),
    ensures
        0 <= word_start_before(s, k) <= k,
{
    crate::strings::lemma_skip_back_bounds(s, 0, k, non_word_char());
    let m = skip_while_back(s, 0, k, non_word_char());
    crate::strings::lemma_skip_back_bounds(s, 0, m, word_char());
}

} // verus!
