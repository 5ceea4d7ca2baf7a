//! The text-edit engine: a single field's text buffer and cursor.
//!
//! The buffer is an ordered sequence of characters and the cursor is a
//! character offset into it, never a byte offset, so editing stays correct
//! under multi-byte text. The engine consumes discrete key-press events
//! addressed to the focused field and keeps the invariant
//! `0 <= cursor <= value.len()` after every operation.

use vstd::prelude::*;

verus! {

/// Cursor glyph rendered when the cursor sits before a character: in the
/// cursor font this renders as a thin full-height bar.
pub const CURSOR_GLYPH_BAR: char = '|';

/// Cursor glyph rendered when the cursor is at end-of-text: a zero-width
/// character, so it collapses to nothing.
pub const CURSOR_GLYPH_END: char = '\u{200b}';

/// A discrete key-press event addressed to the focused field.
#[derive(Clone, Copy, PartialEq, Eq, Structural, Debug)]
pub enum Key {
    /// Move the cursor one character to the left.
    ArrowLeft,
    /// Move the cursor one character to the right.
    ArrowRight,
    /// Remove the character immediately before the cursor.
    Backspace,
    /// Remove the character at the cursor.
    Delete,
    /// Submit the field's value.
    Enter,
    /// Insert a printable character (including space) at the cursor.
    Character(char),
}

/// One field's edit state: text buffer, cursor, masking and blink timer.
pub struct TextInput {
    /// The true, unmasked value as a sequence of characters.
    pub value: Vec<char>,
    /// Cursor offset in characters, always within `0 ..= value.len()`.
    pub cursor: usize,
    /// When present, every rendered character is replaced by this one;
    /// editing always operates on the true value.
    pub mask_character: Option<char>,
    /// When true, submitting leaves the value in place; when false, the
    /// field is cleared and the cursor reset after the submit event.
    pub retain_on_submit: bool,
    /// Blink state: whether the cursor glyph is currently shown.
    pub cursor_visible: bool,
    /// Force-reset mark: the next blink tick shows the cursor immediately
    /// and restarts the timer instead of toggling.
    pub blink_reset: bool,
}

/// The mathematical model of a [`TextInput`].
pub struct TextInputModel {
    /// The buffer as a sequence of characters.
    pub value: Seq<char>,
    /// Cursor offset in characters.
    pub cursor: int,
    /// Mask character, if any.
    pub mask_character: Option<char>,
    /// Whether the value is retained on submit.
    pub retain_on_submit: bool,
    /// Whether the cursor glyph is currently shown.
    pub cursor_visible: bool,
    /// Whether a forced blink reset is pending.
    pub blink_reset: bool,
}

impl View for TextInput {
    type V = TextInputModel;

    open spec fn view(&self) -> TextInputModel {
        TextInputModel {
            value: self.value@,
            cursor: self.cursor as int,
            mask_character: self.mask_character,
            retain_on_submit: self.retain_on_submit,
            cursor_visible: self.cursor_visible,
            blink_reset: self.blink_reset,
        }
    }
}

impl TextInputModel {
    /// Well-formedness: the cursor stays within the buffer.
    pub open spec fn wf(self) -> bool {
        0 <= self.cursor <= self.value.len()
    }

    /// The same state with a new buffer and cursor and a pending blink
    /// reset, as every edit and navigation leaves it.
    pub open spec fn with_edit(self, value: Seq<char>, cursor: int) -> TextInputModel {
        TextInputModel { value, cursor, blink_reset: true, ..self }
    }
}

/// What one key does to the edit state.
pub open spec fn key_step(m: TextInputModel, k: Key) -> TextInputModel {
    match k {
        Key::ArrowLeft => m.with_edit(m.value, if m.cursor > 0 { m.cursor - 1 } else { 0 }),
        Key::ArrowRight => m.with_edit(
            m.value,
            if m.cursor < m.value.len() { m.cursor + 1 } else { m.value.len() as int },
        ),
        Key::Backspace => if m.cursor > 0 {
            m.with_edit(m.value.remove(m.cursor - 1), m.cursor - 1)
        } else {
            m.with_edit(m.value, m.cursor)
        },
        Key::Delete => if m.cursor < m.value.len() {
            m.with_edit(m.value.remove(m.cursor), m.cursor)
        } else {
            m.with_edit(m.value, m.cursor)
        },
        Key::Enter => if m.retain_on_submit {
            m
        } else {
            m.with_edit(Seq::empty(), 0)
        },
        Key::Character(c) => m.with_edit(m.value.insert(m.cursor, c), m.cursor + 1),
    }
}

/// The submit payload one key produces: Enter submits a copy of the value
/// as it stood when the key arrived; no other key submits.
pub open spec fn key_submission(m: TextInputModel, k: Key) -> Option<Seq<char>> {
    if k is Enter {
        Some(m.value)
    } else {
        None
    }
}

impl TextInput {
    /// A fresh, empty field.
    pub fn new(mask_character: Option<char>, retain_on_submit: bool) -> (t: TextInput)
        ensures
            t@.value.len() == 0,
            t@.cursor == 0,
            t@.mask_character == mask_character,
            t@.retain_on_submit == retain_on_submit,
            t@.cursor_visible,
            !t@.blink_reset,
            t@.wf(),
    {
        TextInput {
            value: Vec::new(),
            cursor: 0,
            mask_character,
            retain_on_submit,
            cursor_visible: true,
            blink_reset: false,
        }
    }

    /// Move the cursor one character left; no-op at the left boundary.
    /// Marks the blink timer for a forced reset.
    pub fn arrow_left(&mut self)
        requires
            old(self)@.wf(),
        ensures
            final(self)@ == key_step(old(self)@, Key::ArrowLeft),
            final(self)@.wf(),
    {
        if self.cursor > 0 {
            self.cursor = self.cursor - 1;
        }
        self.blink_reset = true;
    }

    /// Move the cursor one character right; no-op at the right boundary.
    /// Marks the blink timer for a forced reset.
    pub fn arrow_right(&mut self)
        requires
            old(self)@.wf(),
        ensures
            final(self)@ == key_step(old(self)@, Key::ArrowRight),
            final(self)@.wf(),
    {
        if self.cursor < self.value.len() {
            self.cursor = self.cursor + 1;
        }
        self.blink_reset = true;
    }

    /// If the cursor is past the start, remove the character immediately
    /// before it and move the cursor back by one.
    pub fn backspace(&mut self)
        requires
            old(self)@.wf(),
        ensures
            final(self)@ == key_step(old(self)@, Key::Backspace),
            final(self)@.wf(),
    {
        if self.cursor > 0 {
            self.cursor = self.cursor - 1;
            self.value.remove(self.cursor);
        }
        self.blink_reset = true;
    }

    /// If the cursor is before the end, remove the character at the cursor;
    /// the cursor itself stays where it is.
    pub fn delete(&mut self)
        requires
            old(self)@.wf(),
        ensures
            final(self)@ == key_step(old(self)@, Key::Delete),
            final(self)@.wf(),
    {
        if self.cursor < self.value.len() {
            self.value.remove(self.cursor);
        }
        self.blink_reset = true;
    }

    /// Insert a character at the cursor and advance the cursor by one.
    pub fn insert_char(&mut self, c: char)
        requires
            old(self)@.wf(),
            old(self)@.value.len() < usize::MAX,
        ensures
            final(self)@ == key_step(old(self)@, Key::Character(c)),
            final(self)@.wf(),
    {
        self.value.insert(self.cursor, c);
        self.cursor = self.cursor + 1;
        self.blink_reset = true;
    }

    /// Submit the field: the returned payload is the value as it stood.
    /// When the field does not retain its value on submit, the buffer is
    /// cleared and the cursor reset to the start afterwards.
    pub fn press_enter(&mut self) -> (submitted: Vec<char>)
        requires
            old(self)@.wf(),
        ensures
            final(self)@ == key_step(old(self)@, Key::Enter),
            final(self)@.wf(),
            submitted@ == old(self)@.value,
    {
        let submitted = clone_chars(&self.value);
        if !self.retain_on_submit {
            self.value.clear();
            self.cursor = 0;
            self.blink_reset = true;
        }
        submitted
    }

    /// Apply one key, returning the submit payload if the key was Enter.
    pub fn apply_key(&mut self, k: Key) -> (submitted: Option<Vec<char>>)
        requires
            old(self)@.wf(),
            k is Character ==> old(self)@.value.len() < usize::MAX,
        ensures
            final(self)@ == key_step(old(self)@, k),
            final(self)@.wf(),
            submitted.deep_view() == key_submission(old(self)@, k),
    {
        match k {
            Key::ArrowLeft => {
                self.arrow_left();
                None
            },
            Key::ArrowRight => {
                self.arrow_right();
                None
            },
            Key::Backspace => {
                self.backspace();
                None
            },
            Key::Delete => {
                self.delete();
                None
            },
            Key::Enter => Some(self.press_enter()),
            Key::Character(c) => {
                self.insert_char(c);
                None
            },
        }
    }
}

/// The state after a whole batch of keys, applied in arrival order.
pub open spec fn keys_step(m: TextInputModel, ks: Seq<Key>) -> TextInputModel
    decreases ks.len(),
{
    if ks.len() == 0 {
        m
    } else {
        keys_step(key_step(m, ks.first()), ks.drop_first())
    }
}

/// The submit payloads a batch of keys produces, in arrival order.
pub open spec fn keys_submissions(m: TextInputModel, ks: Seq<Key>) -> Seq<Seq<char>>
    decreases ks.len(),
{
    if ks.len() == 0 {
        Seq::empty()
    } else {
        match key_submission(m, ks.first()) {
            Some(s) => seq![s] + keys_submissions(key_step(m, ks.first()), ks.drop_first()),
            None => keys_submissions(key_step(m, ks.first()), ks.drop_first()),
        }
    }
}

/// Extending a batch by one key on the right applies that key last.
pub proof fn lemma_keys_step_push(m: TextInputModel, ks: Seq<Key>, k: Key)
    ensures
        keys_step(m, ks.push(k)) == key_step(keys_step(m, ks), k),
        keys_submissions(m, ks.push(k)) == keys_submissions(m, ks) + match key_submission(
            keys_step(m, ks),
            k,
        ) {
            Some(s) => seq![s],
            None => Seq::empty(),
        },
    decreases ks.len(),
{
    assert(ks.push(k).first() == ks.push(k)[0]);
    if ks.len() == 0 {
        assert(ks.push(k).first() == k);
        assert(ks.push(k).drop_first() =~= Seq::<Key>::empty());
        assert(keys_step(key_step(m, k), Seq::<Key>::empty()) == key_step(m, k));
        assert(keys_submissions(key_step(m, k), Seq::<Key>::empty()) == Seq::<Seq<char>>::empty());
        assert(keys_step(m, Seq::<Key>::empty()) == m);
        assert(keys_submissions(m, Seq::<Key>::empty()) == Seq::<Seq<char>>::empty());
        assert(keys_submissions(m, ks.push(k)) =~= keys_submissions(m, ks) + match key_submission(
            keys_step(m, ks),
            k,
        ) {
            Some(s) => seq![s],
            None => Seq::empty(),
        });
    } else {
        assert(ks.push(k).first() == ks.first());
        assert(ks.push(k).drop_first() =~= ks.drop_first().push(k));
        lemma_keys_step_push(key_step(m, ks.first()), ks.drop_first(), k);
        assert(keys_submissions(m, ks.push(k)) =~= keys_submissions(m, ks) + match key_submission(
            keys_step(m, ks),
            k,
        ) {
            Some(s) => seq![s],
            None => Seq::empty(),
        });
    }
}

/// One key keeps the cursor within the buffer.
pub proof fn lemma_key_step_wf(m: TextInputModel, k: Key)
    requires
        m.wf(),
    ensures
        key_step(m, k).wf(),
{
}

/// For every sequence of keys — insertions included — the cursor stays
/// within `0 ..= value.len()` after every operation.
pub proof fn lemma_keys_step_wf(m: TextInputModel, ks: Seq<Key>)
    requires
        m.wf(),
    ensures
        keys_step(m, ks).wf(),
    decreases ks.len(),
{
    if ks.len() > 0 {
        lemma_key_step_wf(m, ks.first());
        lemma_keys_step_wf(key_step(m, ks.first()), ks.drop_first());
    }
}

/// Inserting a character and then pressing Backspace at the same position
/// restores the original value and cursor offset.
pub proof fn lemma_insert_then_backspace(m: TextInputModel, c: char)
    requires
        m.wf(),
    ensures
        key_step(key_step(m, Key::Character(c)), Key::Backspace).value == m.value,
        key_step(key_step(m, Key::Character(c)), Key::Backspace).cursor == m.cursor,
{
    assert(m.value.insert(m.cursor, c).remove(m.cursor) =~= m.value);
}

impl TextInput {
    /// Consume one batch of key events in arrival order, returning the
    /// submit payloads in the order they were produced. While a platform
    /// control modifier is held — reserved for clipboard shortcuts — the
    /// whole batch is ignored; the bypass is checked once per batch.
    pub fn process_keys(&mut self, keys: &Vec<Key>, control_held: bool) -> (submits: Vec<
        Vec<char>,
    >)
        requires
            old(self)@.wf(),
            old(self)@.value.len() + keys@.len() < usize::MAX,
        ensures
            final(self)@.wf(),
            control_held ==> final(self)@ == old(self)@ && submits@.len() == 0,
            !control_held ==> final(self)@ == keys_step(old(self)@, keys@),
            !control_held ==> submits.deep_view() == keys_submissions(old(self)@, keys@),
    {
        let mut submits: Vec<Vec<char>> = Vec::new();
        if control_held {
            return submits;
        }
        let ghost m0 = self@;
        let mut i: usize = 0;
        while i < keys.len()
            invariant
                i <= keys@.len(),
                m0.wf(),
                m0.value.len() + keys@.len() < usize::MAX,
                self@ == keys_step(m0, keys@.take(i as int)),
                submits.deep_view() == keys_submissions(m0, keys@.take(i as int)),
                self@.wf(),
                self@.value.len() <= m0.value.len() + i,
            decreases keys@.len() - i,
        {
            let ghost prefix = keys@.take(i as int);
            let ghost before = self@;
            let k = keys[i];
            let sub = self.apply_key(k);
            match sub {
                Some(s) => submits.push(s),
                None => (),
            }
            proof {
                lemma_keys_step_push(m0, prefix, k);
                assert(keys@.take(i as int + 1) =~= prefix.push(k));
                if sub is Some {
                    assert(submits.deep_view() =~= keys_submissions(m0, keys@.take(i as int + 1)));
                } else {
                    assert(submits.deep_view() =~= keys_submissions(m0, keys@.take(i as int + 1)));
                }
            }
            i = i + 1;
        }
        proof {
            assert(keys@.take(keys@.len() as int) =~= keys@);
        }
        submits
    }
}

/// Whether a character counts as a newline; pasted text is cleansed of
/// these before insertion.
pub open spec fn is_newline(c: char) -> bool {
    c == '\n' || c == '\r'
}

/// The pasted text with newline characters stripped.
pub open spec fn strip_newlines(s: Seq<char>) -> Seq<char>
    decreases s.len(),
{
    if s.len() == 0 {
        Seq::empty()
    } else {
        strip_newlines(s.drop_last()) + if is_newline(s.last()) {
            Seq::empty()
        } else {
            seq![s.last()]
        }
    }
}

impl TextInput {
    /// Deliver pasted text: newline characters are stripped, the rest is
    /// inserted at the cursor, and the cursor advances by the number of
    /// characters inserted.
    pub fn paste(&mut self, text: &Vec<char>) -> (inserted: usize)
        requires
            old(self)@.wf(),
            old(self)@.value.len() + text@.len() < usize::MAX,
        ensures
            final(self)@.wf(),
            final(self)@.value == old(self)@.value.take(old(self)@.cursor) + strip_newlines(text@)
                + old(self)@.value.skip(old(self)@.cursor),
            final(self)@.cursor == old(self)@.cursor + strip_newlines(text@).len(),
            inserted == strip_newlines(text@).len(),
            final(self)@.mask_character == old(self)@.mask_character,
            final(self)@.retain_on_submit == old(self)@.retain_on_submit,
    {
        let ghost m0 = self@;
        let mut stripped: Vec<char> = Vec::new();
        let mut i: usize = 0;
        while i < text.len()
            invariant
                i <= text@.len(),
                stripped@ == strip_newlines(text@.take(i as int)),
                stripped@.len() <= i,
            decreases text@.len() - i,
        {
            let c = text[i];
            proof {
                assert(text@.take(i as int + 1).drop_last() =~= text@.take(i as int));
                assert(text@.take(i as int + 1).last() == c);
            }
            if !(c == '\n' || c == '\r') {
                stripped.push(c);
            }
            proof {
                assert(stripped@ =~= strip_newlines(text@.take(i as int + 1)));
            }
            i = i + 1;
        }
        proof {
            assert(text@.take(text@.len() as int) =~= text@);
        }
        let mut j: usize = 0;
        while j < stripped.len()
            invariant
                j <= stripped@.len(),
                m0.wf(),
                stripped@.len() <= text@.len(),
                m0.value.len() + text@.len() < usize::MAX,
                stripped@ == strip_newlines(text@),
                self@.cursor == m0.cursor + j,
                self@.value == m0.value.take(m0.cursor) + stripped@.take(j as int) + m0.value.skip(
                    m0.cursor,
                ),
                self@.mask_character == m0.mask_character,
                self@.retain_on_submit == m0.retain_on_submit,
            decreases stripped@.len() - j,
        {
            self.value.insert(self.cursor, stripped[j]);
            self.cursor = self.cursor + 1;
            self.blink_reset = true;
            proof {
                assert(self@.value =~= m0.value.take(m0.cursor) + stripped@.take(j as int + 1)
                    + m0.value.skip(m0.cursor));
            }
            j = j + 1;
        }
        proof {
            assert(stripped@.take(stripped@.len() as int) =~= stripped@);
        }
        stripped.len()
    }
}

/// The buffer as it is rendered: the true value, or — when a mask
/// character is configured — one mask character per true character.
pub open spec fn masked_value(m: TextInputModel) -> Seq<char> {
    match m.mask_character {
        Some(mask) => Seq::new(m.value.len(), |i: int| mask),
        None => m.value,
    }
}

/// The cursor glyph: a zero-width character at end-of-text, a full-width
/// bar otherwise.
pub open spec fn cursor_glyph(m: TextInputModel) -> char {
    if m.cursor == m.value.len() {
        CURSOR_GLYPH_END
    } else {
        CURSOR_GLYPH_BAR
    }
}

/// Display-ready text: the characters before the cursor, the cursor glyph,
/// and the characters from the cursor onward, masking applied.
pub struct RenderedText {
    /// Rendered characters before the cursor.
    pub before: Vec<char>,
    /// The cursor glyph between the two halves.
    pub glyph: char,
    /// Rendered characters from the cursor onward.
    pub after: Vec<char>,
    /// Whether the glyph is currently shown by the blink timer.
    pub glyph_visible: bool,
}

impl TextInput {
    /// Split the rendered value into the three display segments. Masking
    /// applies only here; the underlying edit state is untouched.
    pub fn render(&self) -> (r: RenderedText)
        requires
            self@.wf(),
        ensures
            r.before@ == masked_value(self@).take(self@.cursor),
            r.after@ == masked_value(self@).skip(self@.cursor),
            r.glyph == cursor_glyph(self@),
            r.glyph_visible == self@.cursor_visible,
    {
        let mut before: Vec<char> = Vec::new();
        let mut i: usize = 0;
        while i < self.cursor
            invariant
                self@.wf(),
                i <= self@.cursor,
                before@ == masked_value(self@).take(i as int),
            decreases self@.cursor - i,
        {
            match self.mask_character {
                Some(mask) => before.push(mask),
                None => before.push(self.value[i]),
            }
            proof {
                assert(before@ =~= masked_value(self@).take(i as int + 1));
            }
            i = i + 1;
        }
        let mut after: Vec<char> = Vec::new();
        let mut j: usize = self.cursor;
        while j < self.value.len()
            invariant
                self@.wf(),
                self@.cursor <= j <= self@.value.len(),
                after@ == masked_value(self@).subrange(self@.cursor, j as int),
            decreases self@.value.len() - j,
        {
            match self.mask_character {
                Some(mask) => after.push(mask),
                None => after.push(self.value[j]),
            }
            proof {
                assert(after@ =~= masked_value(self@).subrange(self@.cursor, j as int + 1));
            }
            j = j + 1;
        }
        let glyph = if self.cursor == self.value.len() {
            CURSOR_GLYPH_END
        } else {
            CURSOR_GLYPH_BAR
        };
        proof {
            assert(after@ =~= masked_value(self@).skip(self@.cursor));
        }
        RenderedText { before, glyph, after, glyph_visible: self.cursor_visible }
    }

    /// One firing of the repeating blink timer: normally toggles the
    /// glyph's visibility; after an edit or navigation marked the timer for
    /// reset, shows the glyph immediately and restarts instead.
    pub fn blink_tick(&mut self)
        ensures
            final(self)@.value == old(self)@.value,
            final(self)@.cursor == old(self)@.cursor,
            final(self)@.mask_character == old(self)@.mask_character,
            final(self)@.retain_on_submit == old(self)@.retain_on_submit,
            !final(self)@.blink_reset,
            final(self)@.cursor_visible == if old(self)@.blink_reset {
                true
            } else {
                !old(self)@.cursor_visible
            },
    {
        if self.blink_reset {
            self.cursor_visible = true;
            self.blink_reset = false;
        } else {
            self.cursor_visible = !self.cursor_visible;
        }
    }

    /// Apply a programmatic write arriving from outside the keyboard path.
    /// A pass that changes the value without touching the cursor resets the
    /// cursor to end-of-text; a cursor written in the same pass is clamped
    /// to the new length instead, so programmatic value assignment and
    /// cursor repositioning coexist.
    pub fn write_external(
        &mut self,
        new_value: Option<Vec<char>>,
        new_cursor: Option<usize>,
    ) -> (value_changed: bool)
        requires
            old(self)@.wf(),
        ensures
            final(self)@.wf(),
            final(self)@.value == match new_value {
                Some(v) => v@,
                None => old(self)@.value,
            },
            value_changed == (final(self)@.value != old(self)@.value),
            final(self)@.cursor == match new_cursor {
                Some(c) => if c <= final(self)@.value.len() {
                    c as int
                } else {
                    final(self)@.value.len() as int
                },
                None => if value_changed {
                    final(self)@.value.len() as int
                } else {
                    old(self)@.cursor
                },
            },
            final(self)@.mask_character == old(self)@.mask_character,
            final(self)@.retain_on_submit == old(self)@.retain_on_submit,
    {
        let value_changed: bool;
        match new_value {
            Some(v) => {
                value_changed = !chars_eq(&v, &self.value);
                self.value = v;
            },
            None => {
                value_changed = false;
            },
        }
        match new_cursor {
            Some(c) => {
                if c <= self.value.len() {
                    self.cursor = c;
                } else {
                    self.cursor = self.value.len();
                }
            },
            None => {
                if value_changed {
                    self.cursor = self.value.len();
                }
            },
        }
        value_changed
    }
}

/// Whether two character buffers hold the same characters.
pub fn chars_eq(a: &Vec<char>, b: &Vec<char>) -> (r: bool)
    ensures
        r == (a@ == b@),
{
    if a.len() != b.len() {
        return false;
    }
    let mut i: usize = 0;
    while i < a.len()
        invariant
            a@.len() == b@.len(),
            i <= a@.len(),
            forall|j: int| 0 <= j < i ==> a@[j] == b@[j],
        decreases a@.len() - i,
    {
        if a[i] != b[i] {
            return false;
        }
        i = i + 1;
    }
    proof {
        assert(a@ =~= b@);
    }
    true
}

/// Copy a character buffer.
pub fn clone_chars(v: &Vec<char>) -> (r: Vec<char>)
    ensures
        r@ == v@,
{
    let mut r: Vec<char> = Vec::new();
    let mut i: usize = 0;
    while i < v.len()
        invariant
            i <= v@.len(),
            r@ == v@.take(i as int),
        decreases v@.len() - i,
    {
        r.push(v[i]);
        proof {
            assert(r@ =~= v@.take(i as int + 1));
        }
        i = i + 1;
    }
    proof {
        assert(r@ =~= v@);
    }
    r
}

} // verus!
