//! Keys and the one-line editor.
use vstd::prelude::*;

use crate::text::{chars_of, text_of};

verus! {

/// A key, without the keys held down with it.
#[derive(Debug, Clone, Copy, PartialEq, Eq, Structural)]
pub enum KeyCode {
    Char(char),
    Enter,
    Esc,
    Tab,
    BackTab,
    Up,
    Down,
    Left,
    Right,
    PageUp,
    PageDown,
    Home,
    End,
    Backspace,
    Delete,
    /// Any other key.
    Other,
}

/// A key press.
#[derive(Debug, Clone, Copy, PartialEq, Eq, Structural)]
pub struct Key {
    pub code: KeyCode,
    /// Whether Control is held down.
    pub control: bool,
    /// Whether Shift is held down.
    pub shift: bool,
}

/// Whether a key confirms a deletion. Only an explicit yes does; every other key,
/// Enter among them, means no.
pub open spec fn confirms(code: KeyCode) -> bool {
    code == KeyCode::Char('y') || code == KeyCode::Char('Y')
}

/// Whether a key confirms a deletion.
pub fn delete_confirmation_accepts(code: KeyCode) -> (r: bool)
    ensures
        r == confirms(code),
{
    match code {
        KeyCode::Char(c) => c == 'y' || c == 'Y',
        _ => false,
    }
}

/// A line that is being edited.
#[derive(Debug, PartialEq, Eq)]
pub struct EditBuffer {
    chars: Vec<char>,
    cursor: usize,
}

/// The content of an [`EditBuffer`]: the text, and the number of characters
/// before the cursor.
#[verifier::ext_equal]
pub struct EditView {
    pub text: Seq<char>,
    pub cursor: int,
}

impl View for EditBuffer {
    type V = EditView;

    closed spec fn view(&self) -> EditView {
        EditView { text: self.chars@, cursor: self.cursor as int }
    }
}

impl EditView {
    /// Whether the cursor is in the text or at its end.
    pub open spec fn valid(self) -> bool {
        0 <= self.cursor <= self.text.len()
    }

    /// A text with the cursor at its end.
    pub open spec fn filled(text: Seq<char>) -> EditView {
        EditView { text, cursor: text.len() as int }
    }

    /// With a character put in at the cursor.
    pub open spec fn inserted(self, c: char) -> EditView {
        EditView { text: self.text.insert(self.cursor, c), cursor: self.cursor + 1 }
    }

    /// Without the character before the cursor.
    pub open spec fn backspaced(self) -> EditView {
        if self.cursor > 0 {
            EditView { text: self.text.remove(self.cursor - 1), cursor: self.cursor - 1 }
        } else {
            self
        }
    }

    /// Without the character at the cursor.
    pub open spec fn deleted(self) -> EditView {
        if self.cursor < self.text.len() {
            EditView { text: self.text.remove(self.cursor), ..self }
        } else {
            self
        }
    }

    /// With the cursor one character to the left.
    pub open spec fn moved_left(self) -> EditView {
        if self.cursor > 0 {
            EditView { cursor: self.cursor - 1, ..self }
        } else {
            self
        }
    }

    /// With the cursor one character to the right.
    pub open spec fn moved_right(self) -> EditView {
        if self.cursor < self.text.len() {
            EditView { cursor: self.cursor + 1, ..self }
        } else {
            self
        }
    }

    /// With the cursor at the start.
    pub open spec fn at_start(self) -> EditView {
        EditView { cursor: 0, ..self }
    }

    /// With the cursor at the end.
    pub open spec fn at_end(self) -> EditView {
        EditView { cursor: self.text.len() as int, ..self }
    }
}

impl EditBuffer {
    #[verifier::type_invariant]
    spec fn in_text(&self) -> bool {
        self.cursor <= self.chars@.len()
    }

    /// A text with the cursor at its end.
    pub fn new(text: &str) -> (r: Self)
        ensures
            r@ == EditView::filled(text@),
            r@.valid(),
    {
        let chars = chars_of(text);
        let cursor: usize = chars.len();
        EditBuffer { chars, cursor }
    }

    /// The text.
    pub fn text(&self) -> (r: String)
        ensures
            r@ == self@.text,
    {
        let total: usize = self.chars.len();
        let r = text_of(&self.chars, 0, total);
        assert(r@ =~= self.chars@);
        r
    }

    /// The number of characters before the cursor.
    pub fn cursor(&self) -> (r: usize)
        ensures
            r == self@.cursor,
            self@.valid(),
    {
        proof {
            use_type_invariant(self);
        }
        self.cursor
    }

    /// Puts a character in at the cursor.
    pub fn insert(self, c: char) -> (r: Self)
        ensures
            r@ == self@.inserted(c),
            r@.valid(),
    {
        proof {
            use_type_invariant(&self);
        }
        let mut chars = self.chars;
        chars.insert(self.cursor, c);
        let total: usize = chars.len();
        assert(self.cursor < total);
        EditBuffer { chars, cursor: self.cursor + 1 }
    }

    /// Removes the character before the cursor.
    pub fn backspace(self) -> (r: Self)
        ensures
            r@ == self@.backspaced(),
            r@.valid(),
    {
        proof {
            use_type_invariant(&self);
        }
        if self.cursor > 0 {
            let cursor: usize = self.cursor - 1;
            let mut chars = self.chars;
            let removed = chars.remove(cursor);
            EditBuffer { chars, cursor }
        } else {
            self
        }
    }

    /// Removes the character at the cursor.
    pub fn delete(self) -> (r: Self)
        ensures
            r@ == self@.deleted(),
            r@.valid(),
    {
        proof {
            use_type_invariant(&self);
        }
        if self.cursor < self.chars.len() {
            let mut chars = self.chars;
            let removed = chars.remove(self.cursor);
            EditBuffer { chars, cursor: self.cursor }
        } else {
            self
        }
    }

    /// Moves the cursor one character to the left.
    pub fn left(self) -> (r: Self)
        ensures
            r@ == self@.moved_left(),
            r@.valid(),
    {
        proof {
            use_type_invariant(&self);
        }
        if self.cursor > 0 {
            EditBuffer { chars: self.chars, cursor: self.cursor - 1 }
        } else {
            self
        }
    }

    /// Moves the cursor one character to the right.
    pub fn right(self) -> (r: Self)
        ensures
            r@ == self@.moved_right(),
            r@.valid(),
    {
        proof {
            use_type_invariant(&self);
        }
        let total: usize = self.chars.len();
        if self.cursor < total {
            EditBuffer { chars: self.chars, cursor: self.cursor + 1 }
        } else {
            self
        }
    }

    /// Moves the cursor to the start.
    pub fn home(self) -> (r: Self)
        ensures
            r@ == self@.at_start(),
            r@.valid(),
    {
        EditBuffer { chars: self.chars, cursor: 0 }
    }

    /// Moves the cursor to the end.
    pub fn end(self) -> (r: Self)
        ensures
            r@ == self@.at_end(),
            r@.valid(),
    {
        let cursor: usize = self.chars.len();
        EditBuffer { chars: self.chars, cursor }
    }
}

/// Backspace takes back what was typed.
pub proof fn backspace_takes_back(edit: EditView, c: char)
    requires
        edit.valid(),
    ensures
        edit.inserted(c).backspaced() == edit,
{
    assert(edit.text.insert(edit.cursor, c).remove(edit.cursor) =~= edit.text);
}

/// Delete takes back what was typed once the cursor is back in front of it.
pub proof fn delete_takes_back(edit: EditView, c: char)
    requires
        edit.valid(),
    ensures
        edit.inserted(c).moved_left().deleted() == edit,
{
    assert(edit.text.insert(edit.cursor, c).remove(edit.cursor) =~= edit.text);
}

/// What is typed goes in at the cursor, which then stands behind it; moving the cursor
/// changes no text and stays within it.
pub proof fn typing_goes_in_at_the_cursor(edit: EditView, c: char)
    requires
        edit.valid(),
    ensures
        edit.inserted(c).text.take(edit.cursor) == edit.text.take(edit.cursor),
        edit.inserted(c).text[edit.cursor] == c,
        edit.inserted(c).text.skip(edit.cursor + 1) == edit.text.skip(edit.cursor),
        edit.inserted(c).cursor == edit.cursor + 1,
        edit.moved_left().text == edit.text && edit.moved_right().text == edit.text,
        edit.at_start().text == edit.text && edit.at_end().text == edit.text,
        edit.at_start().cursor == 0,
        edit.at_end().cursor == edit.text.len(),
        edit.cursor > 0 ==> edit.moved_left().cursor == edit.cursor - 1,
        edit.cursor == 0 ==> edit.moved_left() == edit && edit.backspaced() == edit,
        edit.cursor < edit.text.len() ==> edit.moved_right().cursor == edit.cursor + 1,
        edit.cursor == edit.text.len() ==> edit.moved_right() == edit && edit.deleted() == edit,
        edit.inserted(c).valid() && edit.backspaced().valid() && edit.deleted().valid(),
{
    let after = edit.inserted(c).text;
    assert(after.take(edit.cursor) =~= edit.text.take(edit.cursor));
    assert(after.skip(edit.cursor + 1) =~= edit.text.skip(edit.cursor));
}

/// Only y confirms a deletion, in either case.
pub proof fn only_y_confirms(code: KeyCode)
    ensures
        confirms(code) <==> code == KeyCode::Char('y') || code == KeyCode::Char('Y'),
        !confirms(KeyCode::Enter) && !confirms(KeyCode::Esc),
{
}

} // verus!
