//! The line editor: an always-insert-mode command line driven by decoded keys.

use crate::QemuExitCode;
use vstd::prelude::*;
use vstd::string::*;

verus! {

/// The prompt that opens every input line.
pub const PROMPT: &'static str = "?e235718?jura_os ";

/// A key without a printable symbol.
#[derive(Debug, Clone, PartialEq, Eq)]
pub enum RawKey {
    LShift,
    RShift,
    LControl,
    RControl,
    /// Any other named key, with its name.
    Other(Vec<char>),
}

/// One decoded input event: a printable symbol or a named key going down.
#[derive(Debug, Clone, PartialEq, Eq)]
pub enum Key {
    /// A printable symbol.
    Unicode(char),
    /// A key that has only a name.
    Named(RawKey),
}

/// What the editor asks of its collaborators in answer to one key.
#[derive(Debug, Clone, PartialEq, Eq)]
pub enum Response {
    /// Nothing to do.
    Nothing,
    /// Write this text to the display.
    Print(Vec<char>),
    /// Erase the last glyph on the display.
    EraseLastGlyph,
    /// Terminate the kernel with this signal.
    Exit(QemuExitCode),
}

/// A response as a mathematical value.
pub enum ResponseView {
    Nothing,
    Print(Seq<char>),
    EraseLastGlyph,
    Exit(QemuExitCode),
}

impl View for Response {
    type V = ResponseView;

    open spec fn view(&self) -> ResponseView {
        match self {
            Response::Nothing => ResponseView::Nothing,
            Response::Print(text) => ResponseView::Print(text@),
            Response::EraseLastGlyph => ResponseView::EraseLastGlyph,
            Response::Exit(code) => ResponseView::Exit(*code),
        }
    }
}

/// The editor's state as a mathematical value.
pub struct EditorView {
    /// The symbols typed on the current line.
    pub buffer: Seq<char>,
    /// Whether the control key was pressed and not yet consumed.
    pub modifier: bool,
}

/// The backspace symbol.
pub open spec fn backspace() -> char {
    '\u{8}'
}

/// `count` line feeds.
pub open spec fn line_feeds(count: nat) -> Seq<char> {
    Seq::new(count, |i: int| '\n')
}

/// The text that ends a line: the line echoed between line feeds, then a
/// fresh prompt.
pub open spec fn echo_text(buffer: Seq<char>) -> Seq<char> {
    seq!['\n'] + buffer + seq!['\n', '\n'] + PROMPT@
}

/// The text that redraws the screen when the cursor is on row `row`: as many
/// line feeds as the cursor's row, then the prompt and the line.
pub open spec fn redraw_text(buffer: Seq<char>, row: usize) -> Seq<char> {
    line_feeds(row as nat) + PROMPT@ + buffer
}

/// The state after a key.
pub open spec fn next_state(state: EditorView, key: Key) -> EditorView {
    match key {
        Key::Unicode(symbol) => {
            if symbol == '\n' {
                EditorView { buffer: Seq::empty(), modifier: state.modifier }
            } else if symbol == 'l' {
                if state.modifier {
                    EditorView { buffer: state.buffer, modifier: false }
                } else {
                    EditorView { buffer: state.buffer.push(symbol), modifier: false }
                }
            } else if symbol == 'c' {
                state
            } else if symbol == backspace() {
                if state.buffer.len() > 0 {
                    EditorView { buffer: state.buffer.drop_last(), modifier: state.modifier }
                } else {
                    state
                }
            } else {
                EditorView { buffer: state.buffer.push(symbol), modifier: false }
            }
        },
        Key::Named(RawKey::LControl) => EditorView {
            buffer: state.buffer,
            modifier: true,
        },
        Key::Named(_) => state,
    }
}

/// What the editor answers to a key, with the display's cursor on row `row`.
pub open spec fn response_to(state: EditorView, key: Key, row: usize) -> ResponseView {
    match key {
        Key::Unicode(symbol) => {
            if symbol == '\n' {
                ResponseView::Print(echo_text(state.buffer))
            } else if symbol == 'l' {
                if state.modifier {
                    ResponseView::Print(redraw_text(state.buffer, row))
                } else {
                    ResponseView::Print(seq![symbol])
                }
            } else if symbol == 'c' {
                if state.modifier {
                    ResponseView::Exit(QemuExitCode::Success)
                } else {
                    ResponseView::Nothing
                }
            } else if symbol == backspace() {
                ResponseView::EraseLastGlyph
            } else {
                ResponseView::Print(seq![symbol])
            }
        },
        Key::Named(RawKey::LShift) => ResponseView::Nothing,
        Key::Named(RawKey::RShift) => ResponseView::Nothing,
        Key::Named(RawKey::RControl) => ResponseView::Nothing,
        Key::Named(RawKey::LControl) => ResponseView::Nothing,
        Key::Named(RawKey::Other(name)) => ResponseView::Print(name@),
    }
}

/// Appends the symbols of `chars` to `text`.
fn append_chars(text: &mut Vec<char>, chars: &Vec<char>)
    ensures
        final(text)@ == old(text)@ + chars@,
{
    let mut i: usize = 0;
    while i < chars.len()
        invariant
            i <= chars.len(),
            text@ == old(text)@ + chars@.take(i as int),
        decreases chars.len() - i,
    {
        text.push(chars[i]);
        i += 1;
    }
}

/// Appends the symbols of `s` to `text`.
pub(crate) fn append_str(text: &mut Vec<char>, s: &str)
    ensures
        final(text)@ == old(text)@ + s@,
{
    let len: usize = s.unicode_len();
    let mut i: usize = 0;
    while i < len
        invariant
            len == s@.len(),
            i <= len,
            text@ == old(text)@ + s@.take(i as int),
        decreases len - i,
    {
        text.push(s.get_char(i));
        i += 1;
    }
}

/// The command line being typed, and whether the control key is held.
pub struct LineEditor {
    commands: Vec<char>,
    lc_flag: bool,
}

impl View for LineEditor {
    type V = EditorView;

    closed spec fn view(&self) -> EditorView {
        EditorView { buffer: self.commands@, modifier: self.lc_flag }
    }
}

impl LineEditor {
    /// An editor with an empty line and the control key up.
    pub fn new() -> (editor: Self)
        ensures
            editor@.buffer == Seq::<char>::empty(),
            !editor@.modifier,
    {
        LineEditor { commands: Vec::new(), lc_flag: false }
    }

    /// The symbols typed on the current line.
    pub fn commands(&self) -> (buffer: &Vec<char>)
        ensures
            buffer@ == self@.buffer,
    {
        &self.commands
    }

    /// Whether the control key was pressed and not yet consumed.
    pub fn modifier_held(&self) -> (held: bool)
        ensures
            held == self@.modifier,
    {
        self.lc_flag
    }

    /// Takes one decoded key, with the display's cursor on row `row`: moves to
    /// the next state and returns what the collaborators are to do.
    pub fn parse_keypress(&mut self, key: Key, row: usize) -> (response: Response)
        ensures
            final(self)@ == next_state(old(self)@, key),
            response@ == response_to(old(self)@, key, row),
    {
        match key {
            Key::Unicode(character) => {
                if character == '\n' {
                    let mut text: Vec<char> = Vec::new();
                    text.push('\n');
                    append_chars(&mut text, &self.commands);
                    text.push('\n');
                    text.push('\n');
                    append_str(&mut text, PROMPT);
                    assert(text@ =~= echo_text(self.commands@));
                    self.commands.clear();
                    Response::Print(text)
                } else if character == 'l' {
                    if self.lc_flag {
                        let mut text: Vec<char> = Vec::new();
                        let mut fed: usize = 0;
                        while fed < row
                            invariant
                                fed <= row,
                                text@ == line_feeds(fed as nat),
                            decreases row - fed,
                        {
                            text.push('\n');
                            fed += 1;
                            assert(text@ =~= line_feeds(fed as nat));
                        }
                        append_str(&mut text, PROMPT);
                        append_chars(&mut text, &self.commands);
                        assert(text@ =~= redraw_text(self.commands@, row));
                        self.lc_flag = false;
                        Response::Print(text)
                    } else {
                        self.commands.push(character);
                        self.lc_flag = false;
                        let mut text: Vec<char> = Vec::new();
                        text.push(character);
                        assert(text@ =~= seq![character]);
                        Response::Print(text)
                    }
                } else if character == 'c' {
                    if self.lc_flag {
                        Response::Exit(QemuExitCode::Success)
                    } else {
                        Response::Nothing
                    }
                } else if character == '\u{8}' {
                    self.commands.pop();
                    Response::EraseLastGlyph
                } else {
                    self.commands.push(character);
                    self.lc_flag = false;
                    let mut text: Vec<char> = Vec::new();
                    text.push(character);
                    assert(text@ =~= seq![character]);
                    Response::Print(text)
                }
            },
            Key::Named(code) => match code {
                RawKey::LShift | RawKey::RShift | RawKey::RControl => Response::Nothing,
                RawKey::LControl => {
                    self.lc_flag = true;
                    Response::Nothing
                },
                RawKey::Other(name) => Response::Print(name),
            },
        }
    }
}

} // verus!
