//! The text editor that holds the commit document, and the key presses the
//! terminal delivers. The editor's lines and cursor are what the document
//! logic reads; what a key press does to them is the editor's own behaviour.

use vstd::prelude::*;

use tui_textarea::{CursorMove, Input, Key, TextArea};

use crate::document::lines_view;

verus! {

/// The document editor. The text area it wraps cannot be declared to the
/// verifier directly (its conversion impls trip the trait checker), so it is
/// held in a private field and reached only through the functions below.
#[verifier::external_body]
pub struct Editor {
    area: TextArea<'static>,
}

/// A key on the keyboard.
#[derive(Clone, Copy, Debug, PartialEq, Eq, Structural)]
pub enum KeyCode {
    Char(char),
    Backspace,
    Enter,
    Left,
    Right,
    Up,
    Down,
    Tab,
    BackTab,
    Delete,
    Home,
    End,
    PageUp,
    PageDown,
    Esc,
    F(u8),
    Other,
}

/// A key press with its modifiers.
#[derive(Clone, Copy, Debug, PartialEq, Eq, Structural)]
pub struct KeyPress {
    pub code: KeyCode,
    pub ctrl: bool,
    pub alt: bool,
    pub shift: bool,
}

impl KeyPress {
    /// The key pressed alone.
    pub fn plain(code: KeyCode) -> (k: KeyPress)
        ensures
            k == (KeyPress { code, ctrl: false, alt: false, shift: false }),
    {
        KeyPress { code, ctrl: false, alt: false, shift: false }
    }

    /// The key pressed with Control.
    pub fn control(code: KeyCode) -> (k: KeyPress)
        ensures
            k == (KeyPress { code, ctrl: true, alt: false, shift: false }),
    {
        KeyPress { code, ctrl: true, alt: false, shift: false }
    }

    /// Whether this is Control with the given character.
    pub fn is_control(&self, c: char) -> (b: bool)
        ensures
            b == (self.code == KeyCode::Char(c) && self.ctrl),
    {
        self.code == KeyCode::Char(c) && self.ctrl
    }
}

/// A cursor motion that keeps the text.
#[derive(Clone, Copy, Debug, PartialEq, Eq, Structural)]
pub enum CursorMotion {
    Up,
    Down,
}

/// The lines an editor holds.
pub uninterp spec fn textarea_lines(t: Editor) -> Seq<Seq<char>>;

/// The (row, column) of an editor's cursor.
pub uninterp spec fn textarea_cursor(t: Editor) -> (nat, nat);

/// `TextArea::new`: an editor over `lines` (one empty line when there are
/// none) with the cursor at the start.
#[verifier::external_body]
pub(crate) fn editor_new(lines: Vec<String>) -> (t: Editor)
    ensures
        textarea_lines(t) == (if lines@.len() == 0 {
            seq![Seq::<char>::empty()]
        } else {
            lines_view(lines@)
        }),
        textarea_cursor(t) == (0nat, 0nat),
{
    Editor { area: TextArea::new(lines) }
}

/// `TextArea::lines`: a copy of the editor's lines.
#[verifier::external_body]
pub(crate) fn editor_lines(t: &Editor) -> (v: Vec<String>)
    ensures
        lines_view(v@) == textarea_lines(*t),
{
    t.area.lines().to_vec()
}

/// `TextArea::cursor`: the editor's (row, column).
#[verifier::external_body]
pub(crate) fn editor_cursor(t: &Editor) -> (c: (usize, usize))
    ensures
        (c.0 as nat, c.1 as nat) == textarea_cursor(*t),
{
    t.area.cursor()
}

/// Where `CursorMove::Jump(row, col)` puts the cursor: the row clamped to the
/// last line, the column clamped to that line's length.
pub open spec fn jump_spec(lines: Seq<Seq<char>>, row: u16, col: u16) -> (nat, nat) {
    let r: nat = if row as nat <= lines.len() - 1 {
        row as nat
    } else {
        (lines.len() - 1) as nat
    };
    let c: nat = if col as nat <= lines[r as int].len() {
        col as nat
    } else {
        lines[r as int].len()
    };
    (r, c)
}

/// `move_cursor(CursorMove::Jump(row, col))`: the text stays, the cursor
/// goes to the clamped position.
#[verifier::external_body]
pub(crate) fn editor_jump(t: &mut Editor, row: u16, col: u16)
    requires
        textarea_lines(*old(t)).len() > 0,
    ensures
        textarea_lines(*final(t)) == textarea_lines(*old(t)),
        textarea_cursor(*final(t)) == jump_spec(textarea_lines(*old(t)), row, col),
{
    t.area.move_cursor(CursorMove::Jump(row, col));
}

/// The cursor of an editor after `move_cursor` up or down: one line up or
/// down, its column clamped to that line's length; it stays on the first
/// line for Up and on the last line for Down.
pub open spec fn after_move(t: Editor, motion: CursorMotion) -> (nat, nat) {
    let lines = textarea_lines(t);
    let (row, col) = textarea_cursor(t);
    let fit = |r: nat| if col <= lines[r as int].len() { col } else { lines[r as int].len() };
    match motion {
        CursorMotion::Up => if row == 0 {
            (row, col)
        } else {
            ((row - 1) as nat, fit((row - 1) as nat))
        },
        CursorMotion::Down => if row + 1 < lines.len() {
            (row + 1, fit(row + 1))
        } else {
            (row, col)
        },
    }
}

/// `move_cursor` up or down: the text stays, the cursor goes where the
/// editor's motion puts it.
#[verifier::external_body]
pub(crate) fn editor_move(t: &mut Editor, motion: CursorMotion)
    ensures
        textarea_lines(*final(t)) == textarea_lines(*old(t)),
        textarea_cursor(*final(t)) == after_move(*old(t), motion),
{
    match motion {
        CursorMotion::Up => t.area.move_cursor(CursorMove::Up),
        CursorMotion::Down => t.area.move_cursor(CursorMove::Down),
    }
}

/// The lines and cursor of an editor after `TextArea::input` handles a key
/// press.
pub uninterp spec fn after_input(t: Editor, key: KeyPress) -> (Seq<Seq<char>>, (nat, nat));

/// The lines and cursor of an editor after `TextArea::insert_str`.
pub uninterp spec fn after_insert(t: Editor, s: Seq<char>) -> (Seq<Seq<char>>, (nat, nat));

/// The lines and cursor of an editor after `TextArea::delete_char`.
pub uninterp spec fn after_delete_char(t: Editor) -> (Seq<Seq<char>>, (nat, nat));

/// `TextArea::input`: the editor's own handling of a key press, which keeps
/// at least one line.
#[verifier::external_body]
pub(crate) fn editor_input(t: &mut Editor, key: KeyPress)
    ensures
        (textarea_lines(*final(t)), textarea_cursor(*final(t))) == after_input(*old(t), key),
        textarea_lines(*final(t)).len() > 0,
        key.code == KeyCode::Left || key.code == KeyCode::Right ==> textarea_lines(*final(t))
            == textarea_lines(*old(t)),
{
    let code = match key.code {
        KeyCode::Char(c) => Key::Char(c), KeyCode::Backspace => Key::Backspace, KeyCode::Enter => Key::Enter,
        KeyCode::Left => Key::Left, KeyCode::Right => Key::Right, KeyCode::Up => Key::Up, KeyCode::Down => Key::Down,
        KeyCode::Tab => Key::Tab, KeyCode::Delete => Key::Delete, KeyCode::Home => Key::Home, KeyCode::End => Key::End,
        KeyCode::PageUp => Key::PageUp, KeyCode::PageDown => Key::PageDown, KeyCode::Esc => Key::Esc,
        KeyCode::F(n) => Key::F(n), KeyCode::BackTab | KeyCode::Other => Key::Null,
    };
    t.area.input(Input { key: code, ctrl: key.ctrl, alt: key.alt, shift: key.shift });
}

/// `TextArea::insert_str`: inserts text at the cursor, keeping at least one
/// line.
#[verifier::external_body]
pub(crate) fn editor_insert_str(t: &mut Editor, s: &str)
    ensures
        (textarea_lines(*final(t)), textarea_cursor(*final(t))) == after_insert(*old(t), s@),
        textarea_lines(*final(t)).len() > 0,
{
    t.area.insert_str(s);
}

/// `TextArea::delete_char`: deletes the character before the cursor, keeping
/// at least one line.
#[verifier::external_body]
pub(crate) fn editor_delete_char(t: &mut Editor)
    ensures
        (textarea_lines(*final(t)), textarea_cursor(*final(t))) == after_delete_char(*old(t)),
        textarea_lines(*final(t)).len() > 0,
{
    t.area.delete_char();
}

/// `TextArea::clone`: an editor with the same lines and cursor.
#[verifier::external_body]
pub(crate) fn editor_clone(t: &Editor) -> (r: Editor)
    ensures
        textarea_lines(r) == textarea_lines(*t),
        textarea_cursor(r) == textarea_cursor(*t),
{
    Editor { area: t.area.clone() }
}


impl Editor {
    /// An editor over `lines` (one empty line when there are none) with the
    /// cursor at the start.
    pub fn new(lines: Vec<String>) -> (t: Editor)
        ensures
            textarea_lines(t) == (if lines@.len() == 0 {
                seq![Seq::<char>::empty()]
            } else {
                lines_view(lines@)
            }),
            textarea_cursor(t) == (0nat, 0nat),
    {
        editor_new(lines)
    }

    /// The editor's lines.
    pub fn lines(&self) -> (v: Vec<String>)
        ensures
            lines_view(v@) == textarea_lines(*self),
    {
        editor_lines(self)
    }

    /// The editor's cursor: (row, column).
    pub fn cursor(&self) -> (c: (usize, usize))
        ensures
            (c.0 as nat, c.1 as nat) == textarea_cursor(*self),
    {
        editor_cursor(self)
    }

    /// Puts the cursor on the given row and column, each clamped to the text.
    pub fn jump(&mut self, row: u16, col: u16)
        requires
            textarea_lines(*old(self)).len() > 0,
        ensures
            textarea_lines(*final(self)) == textarea_lines(*old(self)),
            textarea_cursor(*final(self)) == jump_spec(textarea_lines(*old(self)), row, col),
    {
        editor_jump(self, row, col)
    }
}

} // verus!
