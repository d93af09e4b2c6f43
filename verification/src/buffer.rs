//! A text buffer: the rope, a cursor given as line index and byte offset in the line,
//! the first line shown, the editing mode and an optional selection.
use vstd::prelude::*;
use crate::rope::{
    rope_byte_to_line, rope_char, rope_len_bytes, rope_len_chars, rope_len_lines,
    rope_line, rope_line_len_bytes, rope_line_len_chars, rope_line_to_byte, rope_new, rope_text,
};
use crate::selection::Selection;
use crate::text::{byte_len, byte_to_line, len_lines, line_chars, line_len_bytes, line_to_byte};

verus! {

/// The editing mode.
#[derive(Debug, Clone, Copy, PartialEq, Eq, Structural, Hash)]
pub enum Mode {
    Normal,
    Insert,
    Visual,
    Search,
}

impl Default for Mode {
    /// Normal mode.
    fn default() -> (m: Self)
        ensures
            m == Mode::Normal,
    {
        Mode::Normal
    }
}

impl Mode {
    /// The name of the mode, as the status line shows it.
    pub fn as_str(&self) -> (s: &'static str)
        ensures
            *self == Mode::Normal ==> s@ == "Normal"@,
            *self == Mode::Insert ==> s@ == "Insert"@,
            *self == Mode::Visual ==> s@ == "Visual"@,
            *self == Mode::Search ==> s@ == "Search"@,
    {
        match self {
            Mode::Normal => "Normal",
            Mode::Insert => "Insert",
            Mode::Visual => "Visual",
            Mode::Search => "Search",
        }
    }
}

/// A buffer as a mathematical value.
pub struct BufferView {
    pub text: Seq<char>,
    /// Line of the cursor.
    pub index: nat,
    /// Byte offset of the cursor in its line.
    pub offset: nat,
    /// First line shown.
    pub vscroll: nat,
    pub mode: Mode,
    pub selection: Option<Selection>,
}

/// The byte index of the cursor in the whole text.
pub open spec fn byte_pos_of(b: BufferView) -> nat {
    b.offset + line_to_byte(b.text, b.index)
}

/// Line and offset in the line of byte index `pos`.
pub open spec fn curs_pos_of(t: Seq<char>, pos: nat) -> (nat, nat) {
    let index = byte_to_line(t, pos);
    (index, (pos - line_to_byte(t, index)) as nat)
}

/// A cursor position: line index and byte offset in the line.
pub type Pos = (usize, usize);

/// The text being edited and the state of its view.
pub struct Buffer {
    pub(crate) text: ropey::Rope,
    index: usize,
    offset: usize,
    vscroll: usize,
    mode: Mode,
    selection: Option<Selection>,
}

impl View for Buffer {
    type V = BufferView;

    closed spec fn view(&self) -> BufferView {
        BufferView {
            text: rope_text(self.text),
            index: self.index as nat,
            offset: self.offset as nat,
            vscroll: self.vscroll as nat,
            mode: self.mode,
            selection: self.selection,
        }
    }
}

impl Default for Buffer {
    /// An empty buffer in normal mode, with the cursor at the start.
    fn default() -> (b: Self)
        ensures
            b@ == (BufferView {
                text: Seq::empty(),
                index: 0,
                offset: 0,
                vscroll: 0,
                mode: Mode::Normal,
                selection: None,
            }),
    {
        Buffer {
            text: rope_new(),
            index: 0,
            offset: 0,
            vscroll: 0,
            mode: Mode::Normal,
            selection: None,
        }
    }
}

impl Buffer {
    /// The editing mode.
    pub fn mode(&self) -> (m: Mode)
        ensures
            m == self@.mode,
    {
        self.mode
    }

    /// Sets the editing mode.
    pub fn set_mode(&mut self, mode: Mode)
        ensures
            final(self)@ == (BufferView { mode, ..old(self)@ }),
    {
        self.mode = mode;
    }

    /// The text.
    pub fn text(&self) -> (t: &ropey::Rope)
        ensures
            rope_text(*t) == self@.text,
    {
        &self.text
    }

    /// The text, for changes.
    pub fn text_mut(&mut self) -> (t: &mut ropey::Rope)
        ensures
            rope_text(*t) == old(self)@.text,
            final(self)@ == (BufferView { text: rope_text(*final(t)), ..old(self)@ }),
    {
        &mut self.text
    }

    /// Replaces the text.
    pub fn set_text(&mut self, text: ropey::Rope)
        ensures
            final(self)@ == (BufferView { text: rope_text(text), ..old(self)@ }),
    {
        self.text = text;
    }

    /// Line of the cursor.
    pub fn index(&self) -> (i: usize)
        ensures
            i == self@.index,
    {
        self.index
    }

    /// Byte offset of the cursor in its line.
    pub fn offset(&self) -> (o: usize)
        ensures
            o == self@.offset,
    {
        self.offset
    }

    /// Sets the byte offset of the cursor in its line.
    pub fn set_offset(&mut self, offset: usize)
        ensures
            final(self)@ == (BufferView { offset: offset as nat, ..old(self)@ }),
    {
        self.offset = offset;
    }

    /// The cursor: line and byte offset in the line.
    pub fn pos(&self) -> (p: Pos)
        ensures
            p.0 == self@.index,
            p.1 == self@.offset,
    {
        (self.index, self.offset)
    }

    /// Moves the cursor.
    pub fn set_pos(&mut self, pos: Pos)
        ensures
            final(self)@ == (BufferView { index: pos.0 as nat, offset: pos.1 as nat, ..old(self)@ }),
    {
        self.index = pos.0;
        self.offset = pos.1;
    }

    /// Byte index of the cursor in the whole text. The rope crate panics for a line past
    /// the last one; the sum must fit in a `usize`.
    pub fn byte_pos(&self) -> (p: usize)
        requires
            self@.index <= len_lines(self@.text),
            byte_pos_of(self@) <= usize::MAX,
        ensures
            p == byte_pos_of(self@),
    {
        self.offset + self.line_byte(self.index)
    }

    /// Line and byte offset in that line of byte index `pos`. The rope crate panics past
    /// the end of the text.
    pub fn curs_pos(&self, pos: usize) -> (p: Pos)
        requires
            pos <= byte_len(self@.text),
        ensures
            (p.0 as nat, p.1 as nat) == curs_pos_of(self@.text, pos as nat),
    {
        let index = rope_byte_to_line(&self.text, pos);
        proof {
            crate::text::lemma_byte_to_line_start(self@.text, pos as nat);
        }
        let start = rope_line_to_byte(&self.text, index);
        let offset = pos - start;
        (index, offset)
    }

    /// First line shown.
    pub fn vscroll(&self) -> (v: usize)
        ensures
            v == self@.vscroll,
    {
        self.vscroll
    }

    /// Scrolls the least that keeps the cursor line among the `max` lines shown.
    /// The bound `vscroll + max - 1` must be computable without overflow or underflow.
    pub fn update_vscroll(&mut self, max: usize)
        requires
            old(self)@.vscroll + max >= 1,
            old(self)@.vscroll + max <= usize::MAX,
            max == 0 ==> old(self)@.index < usize::MAX,
        ensures
            final(self)@ == (BufferView { vscroll: final(self)@.vscroll, ..old(self)@ }),
            final(self)@.vscroll == if old(self)@.index < old(self)@.vscroll {
                old(self)@.index
            } else if old(self)@.index > old(self)@.vscroll + max - 1 {
                (old(self)@.index - max + 1) as nat
            } else {
                old(self)@.vscroll
            },
            max >= 1 ==> final(self)@.vscroll <= final(self)@.index <= final(self)@.vscroll + max
                - 1,
    {
        let upper_bound = self.vscroll + max - 1;
        if self.index < self.vscroll {
            self.vscroll = self.index;
        } else if self.index > upper_bound {
            self.vscroll = self.index - max + 1;
        }
    }

    /// The selection, if any.
    pub fn selection(&self) -> (s: Option<Selection>)
        ensures
            s == self@.selection,
    {
        self.selection
    }

    /// Moves the head of the selection, if there is one.
    pub fn update_selection(&mut self, pos: usize)
        ensures
            final(self)@ == (BufferView { selection: final(self)@.selection, ..old(self)@ }),
            match old(self)@.selection {
                Some(s) => final(self)@.selection matches Some(s2) && s2.anchor_spec()
                    == s.anchor_spec() && s2.head_spec() == pos,
                None => final(self)@.selection is None,
            },
    {
        if let Some(s) = &mut self.selection {
            s.update(pos);
        }
    }

    /// Starts an empty selection at `pos`.
    pub fn new_selection(&mut self, pos: usize)
        ensures
            final(self)@ == (BufferView { selection: final(self)@.selection, ..old(self)@ }),
            final(self)@.selection matches Some(s) && s.anchor_spec() == pos && s.head_spec()
                == pos,
    {
        self.selection = Some(Selection::new(pos));
    }

    /// Drops the selection.
    pub fn reset_selection(&mut self)
        ensures
            final(self)@ == (BufferView { selection: None, ..old(self)@ }),
    {
        self.selection = None;
    }

    /// Whether there is a selection.
    pub fn is_selection(&self) -> (b: bool)
        ensures
            b == self@.selection is Some,
    {
        self.selection.is_some()
    }

    /// Byte index where line `index` starts. The rope crate panics past the last line.
    pub fn line_byte(&self, index: usize) -> (b: usize)
        requires
            index <= len_lines(self@.text),
        ensures
            b == line_to_byte(self@.text, index as nat),
    {
        rope_line_to_byte(&self.text, index)
    }

    /// UTF-8 length of line `index`, its line break included.
    pub fn line_len_bytes(&self, index: usize) -> (n: usize)
        requires
            index < len_lines(self@.text),
        ensures
            n == line_len_bytes(self@.text, index as nat),
    {
        rope_line_len_bytes(&self.text, index)
    }

    /// Number of chars of line `index`, its line break included.
    pub fn line_len_chars(&self, index: usize) -> (n: usize)
        requires
            index < len_lines(self@.text),
        ensures
            n == line_chars(self@.text, index as nat).len(),
    {
        rope_line_len_chars(&self.text, index)
    }

    /// The chars of line `index`, its line break included.
    pub fn line(&self, index: usize) -> (v: Vec<char>)
        requires
            index < len_lines(self@.text),
        ensures
            v@ == line_chars(self@.text, index as nat),
    {
        rope_line(&self.text, index)
    }

    /// Number of lines: one more than the number of line breaks.
    pub fn len_lines(&self) -> (n: usize)
        ensures
            n == len_lines(self@.text),
    {
        rope_len_lines(&self.text)
    }

    /// Number of chars.
    pub fn len_chars(&self) -> (n: usize)
        ensures
            n == self@.text.len(),
    {
        rope_len_chars(&self.text)
    }

    /// UTF-8 length of the text.
    pub fn len_bytes(&self) -> (n: usize)
        ensures
            n == byte_len(self@.text),
    {
        rope_len_bytes(&self.text)
    }

    /// The char at index `pos`.
    pub fn char(&self, pos: usize) -> (c: char)
        requires
            pos < self@.text.len(),
        ensures
            c == self@.text[pos as int],
    {
        rope_char(&self.text, pos)
    }

    /// Whether the mode is insert.
    pub fn is_insert(&self) -> (b: bool)
        ensures
            b == (self@.mode == Mode::Insert),
    {
        self.mode == Mode::Insert
    }

    /// Whether the mode is visual.
    pub fn is_visual(&self) -> (b: bool)
        ensures
            b == (self@.mode == Mode::Visual),
    {
        self.mode == Mode::Visual
    }

    /// Whether the mode is search.
    pub fn is_search(&self) -> (b: bool)
        ensures
            b == (self@.mode == Mode::Search),
    {
        self.mode == Mode::Search
    }
}

} // verus!
