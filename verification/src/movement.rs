//! Cursor motions: by line, by char, to the ends of the text or of a line, and by word.
use vstd::prelude::*;
use crate::buffer::{byte_pos_of, Buffer, BufferView, Mode, Pos};
use crate::command::modify::others_unchanged;
use crate::editor::Workspace;
use crate::chars::{char_is_ascii_punctuation, char_is_whitespace, is_ascii_punct, is_unicode_ws};
use crate::rope::{rope_len_bytes, rope_line};
use crate::selection::Selection;
use crate::text::{
    byte_len, lemma_line_bytes_within, lemma_line_not_last_nonempty, len_lines, line_chars,
    line_len_bytes, line_to_byte, reverse,
};

verus! {

/// A cursor motion.
pub enum Shift {
    Up(usize),
    Down(usize),
    Left,
    Right,
    Top,
    Bottom,
    LineStart,
    LineEnd,
    ByWord(ShiftWordKind),
}

/// A motion by word.
#[derive(Debug, Clone, Copy, PartialEq, Eq, Structural)]
pub enum ShiftWordKind {
    /// Towards the start of the next word.
    NextStart,
    /// Back to the start of a word.
    PrevStart,
    /// To the end of a word.
    NextEnd,
}

/// Class of a char for motions by word.
#[derive(Debug, Clone, Copy, PartialEq, Eq, Structural)]
pub enum CharKind {
    Space,
    Punct,
    Other,
}

/// The class of `c`: whitespace, ASCII punctuation, or anything else.
pub open spec fn char_kind(c: char) -> CharKind {
    if is_unicode_ws(c) {
        CharKind::Space
    } else if is_ascii_punct(c) {
        CharKind::Punct
    } else {
        CharKind::Other
    }
}

impl CharKind {
    /// The class of `ch`.
    pub fn from_char(ch: char) -> (k: Self)
        ensures
            k == char_kind(ch),
    {
        if char_is_whitespace(ch) {
            CharKind::Space
        } else if char_is_ascii_punctuation(ch) {
            CharKind::Punct
        } else {
            CharKind::Other
        }
    }
}

/// A char of a walk over a line: its index in the walk and its class. Two of them are
/// equal when their classes are.
#[derive(Debug, Clone, Copy)]
pub struct Char {
    pub pos: usize,
    pub kind: CharKind,
}

impl Char {
    /// The char `ch` at index `pos` of a walk.
    pub fn from_pair(pos: usize, ch: char) -> (c: Self)
        ensures
            c.pos == pos,
            c.kind == char_kind(ch),
    {
        Char { pos, kind: CharKind::from_char(ch) }
    }

    /// Equality by class.
    pub fn same_kind(&self, other: &Char) -> (b: bool)
        ensures
            b == (self.kind == other.kind),
    {
        self.kind == other.kind
    }
}

/// `n - 1`, or zero.
pub open spec fn sat_dec(n: nat) -> nat {
    if n > 0 {
        (n - 1) as nat
    } else {
        0
    }
}

/// The smaller of two naturals.
pub open spec fn min(a: nat, b: nat) -> nat {
    if a <= b {
        a
    } else {
        b
    }
}

/// Last byte offset of the cursor on line `i`: the line's UTF-8 length less one.
pub open spec fn last_ofs(t: Seq<char>, i: nat) -> nat {
    sat_dec(line_len_bytes(t, i))
}

/// The cursor `n` lines up, kept within the new line.
pub open spec fn shift_up_spec(b: BufferView, n: nat) -> (nat, nat) {
    let idx: nat = if b.index >= n {
        (b.index - n) as nat
    } else {
        0
    };
    (idx, min(b.offset, last_ofs(b.text, idx)))
}

/// The cursor `n` lines down, at most on the last line, kept within the new line.
pub open spec fn shift_down_spec(b: BufferView, n: nat) -> (nat, nat) {
    let idx = min(b.index + n, (len_lines(b.text) - 1) as nat);
    (idx, min(b.offset, last_ofs(b.text, idx)))
}

/// The cursor one byte left, or at the end of the line above.
pub open spec fn shift_left_spec(b: BufferView) -> (nat, nat) {
    if b.offset > 0 {
        (b.index, (b.offset - 1) as nat)
    } else if b.index > 0 {
        ((b.index - 1) as nat, last_ofs(b.text, (b.index - 1) as nat))
    } else {
        (b.index, b.offset)
    }
}

/// The cursor one byte right, or at the start of the line below; on the last line it may
/// stand just past the last char.
pub open spec fn shift_right_spec(b: BufferView) -> (nat, nat) {
    if b.offset < last_ofs(b.text, b.index) {
        (b.index, b.offset + 1)
    } else if b.index < sat_dec(len_lines(b.text)) {
        (min(b.index + 1, (len_lines(b.text) - 1) as nat), 0)
    } else {
        (b.index, min(b.offset + 1, line_len_bytes(b.text, b.index)))
    }
}

/// The chars that a word motion walks: those after `ofs` forwards, or those before it
/// backwards.
pub open spec fn walk_chars(kind: ShiftWordKind, line: Seq<char>, ofs: nat) -> Seq<char> {
    match kind {
        ShiftWordKind::PrevStart => reverse(line.take(ofs as int)),
        _ => line.skip(ofs as int),
    }
}

/// Whether the walk stops between chars `j - 1` and `j`: the class changes there, the
/// char on the side the motion lands on is no space, and `j - 1` is not the first char.
pub open spec fn word_break(kind: ShiftWordKind, c: Seq<char>, j: int) -> bool {
    let landing = match kind {
        ShiftWordKind::NextStart => char_kind(c[j]),
        _ => char_kind(c[j - 1]),
    };
    &&& landing != CharKind::Space
    &&& char_kind(c[j]) != char_kind(c[j - 1])
    &&& j - 1 != 0
}

/// The first index `j`, from `from` on, at which the walk stops.
pub open spec fn first_break(kind: ShiftWordKind, c: Seq<char>, from: nat) -> Option<nat>
    decreases c.len() - from,
{
    if from >= c.len() {
        None
    } else if from >= 1 && word_break(kind, c, from as int) {
        Some(from)
    } else {
        first_break(kind, c, from + 1)
    }
}

/// Offset in the line of index `p` of the walk that starts at `ofs`.
pub open spec fn walk_ofs(kind: ShiftWordKind, ofs: nat, p: nat) -> int {
    match kind {
        ShiftWordKind::PrevStart => ofs - p,
        _ => (ofs + p) as int,
    }
}

/// Where a word motion lands within the line, if it does: at the char before the
/// stop (forwards) or at the stop (backwards); a backward walk that finds no stop lands
/// on the line start unless the line starts with a space.
pub open spec fn word_target(kind: ShiftWordKind, line: Seq<char>, ofs: nat) -> Option<nat> {
    let c = walk_chars(kind, line, ofs);
    match first_break(kind, c, 1) {
        Some(j) => Some(
            walk_ofs(
                kind,
                ofs,
                match kind {
                    ShiftWordKind::PrevStart => j,
                    _ => (j - 1) as nat,
                },
            ) as nat,
        ),
        None => if c.len() > 0 && kind == ShiftWordKind::PrevStart && char_kind(c.last())
            != CharKind::Space {
            Some(0)
        } else {
            None
        },
    }
}

/// Where the selection of a word motion starts within the line, if the walk has two
/// chars: one step in when the first char is no space and the second one differs in
/// class, else at the first char.
pub open spec fn word_sel(kind: ShiftWordKind, line: Seq<char>, ofs: nat) -> Option<nat> {
    let c = walk_chars(kind, line, ofs);
    if c.len() < 2 {
        None
    } else {
        let p: nat = if char_kind(c[0]) != CharKind::Space && char_kind(c[1]) != char_kind(
            c[0],
        ) {
            1
        } else {
            0
        };
        Some(walk_ofs(kind, ofs, p) as nat)
    }
}

/// Result of a word motion: the new cursor and where a selection would start.
pub struct WordShiftPos {
    pub curs: Pos,
    pub sel: Option<usize>,
}

/// The cursor and selection start of a forward word motion from offset `ofs` of line
/// `idx`: the target in the line, else the start of the next line, else the last char.
pub open spec fn forward_spec(kind: ShiftWordKind, t: Seq<char>, idx: nat, ofs: nat) -> (
    (nat, nat),
    Option<nat>,
) {
    let line = line_chars(t, idx);
    let sel = word_sel(kind, line, ofs);
    match word_target(kind, line, ofs) {
        Some(o) => ((idx, o), sel),
        None => if idx + 1 < len_lines(t) {
            ((idx + 1, 0), sel)
        } else {
            ((idx, (line.len() - 1) as nat), sel)
        },
    }
}

/// The offset a backward word motion starts from: one past the cursor, within the line.
pub open spec fn backward_start(line: Seq<char>, ofs: nat) -> nat {
    if ofs != 0 {
        min(ofs + 1, line.len())
    } else {
        ofs
    }
}

/// The cursor and selection start of a backward word motion: the target in the line,
/// else the last char of the line above, else the line start.
pub open spec fn backward_spec(t: Seq<char>, idx: nat, ofs: nat) -> ((nat, nat), Option<nat>) {
    let line = line_chars(t, idx);
    let o = backward_start(line, ofs);
    match word_target(ShiftWordKind::PrevStart, line, o) {
        Some(x) => ((idx, x), word_sel(ShiftWordKind::PrevStart, line, o)),
        None => if idx > 0 {
            (((idx - 1) as nat, (line_chars(t, (idx - 1) as nat).len() - 1) as nat), None)
        } else {
            ((idx, 0), None)
        },
    }
}

/// The cursor and selection start of a word motion.
pub open spec fn word_spec(kind: ShiftWordKind, t: Seq<char>, idx: nat, ofs: nat) -> (
    (nat, nat),
    Option<nat>,
) {
    match kind {
        ShiftWordKind::PrevStart => backward_spec(t, idx, ofs),
        _ => forward_spec(kind, t, idx, ofs),
    }
}

/// When a word motion can run without the rope crate panicking: the cursor line exists,
/// a forward walk starts within it, and a forward motion that finds no target on the
/// last line has a char to land on.
pub open spec fn word_ok(kind: ShiftWordKind, t: Seq<char>, idx: nat, ofs: nat) -> bool {
    &&& idx < len_lines(t)
    &&& ofs < usize::MAX
    &&& kind != ShiftWordKind::PrevStart ==> {
        &&& ofs <= line_chars(t, idx).len()
        &&& (idx + 1 < len_lines(t) || line_chars(t, idx).len() > 0)
    }
}

/// The chars that a word motion walks, as a vector.
fn walk_vec(kind: ShiftWordKind, line: &Vec<char>, ofs: usize) -> (c: Vec<char>)
    requires
        ofs <= line@.len(),
    ensures
        c@ == walk_chars(kind, line@, ofs as nat),
{
    let mut c: Vec<char> = Vec::new();
    match kind {
        ShiftWordKind::PrevStart => {
            let mut k: usize = 0;
            while k < ofs
                invariant
                    ofs <= line@.len(),
                    k <= ofs,
                    c@ =~= reverse(line@.take(ofs as int)).take(k as int),
                decreases ofs - k,
            {
                c.push(line[ofs - 1 - k]);
                k = k + 1;
            }
        },
        _ => {
            let mut i: usize = ofs;
            while i < line.len()
                invariant
                    ofs <= i <= line@.len(),
                    c@ =~= line@.subrange(ofs as int, i as int),
                decreases line@.len() - i,
            {
                c.push(line[i]);
                i = i + 1;
            }
        },
    }
    c
}

/// Offset in the line of index `ch_ofs` of the walk that starts at `ofs`.
pub fn shift_word_ofs(kind: ShiftWordKind, ofs: usize, ch_ofs: usize) -> (r: usize)
    requires
        kind == ShiftWordKind::PrevStart ==> ch_ofs <= ofs,
        kind != ShiftWordKind::PrevStart ==> ofs + ch_ofs <= usize::MAX,
    ensures
        r == walk_ofs(kind, ofs as nat, ch_ofs as nat),
{
    match kind {
        ShiftWordKind::PrevStart => ofs - ch_ofs,
        _ => ofs + ch_ofs,
    }
}

/// The char that decides a stop, and the one whose index the motion lands on when it
/// is not the deciding one.
pub fn shift_word_cur(kind: ShiftWordKind, prev: Char, next: Char) -> (r: (Char, Option<Char>))
    ensures
        kind == ShiftWordKind::NextStart ==> r.0 == next && r.1 == Some(prev),
        kind == ShiftWordKind::PrevStart ==> r.0 == prev && r.1 == Some(next),
        kind == ShiftWordKind::NextEnd ==> r.0 == prev && r.1 is None,
{
    match kind {
        ShiftWordKind::NextStart => (next, Some(prev)),
        ShiftWordKind::PrevStart => (prev, Some(next)),
        ShiftWordKind::NextEnd => (prev, None),
    }
}

/// Where a walk that found no stop lands: a backward walk lands on the line start unless
/// its last char is a space.
pub fn shift_word_def(kind: ShiftWordKind, last: Char) -> (r: Option<usize>)
    ensures
        r == (if kind == ShiftWordKind::PrevStart && last.kind != CharKind::Space {
            Some(0usize)
        } else {
            None
        }),
{
    match kind {
        ShiftWordKind::PrevStart => if last.kind != CharKind::Space {
            Some(0)
        } else {
            None
        },
        _ => None,
    }
}

/// Where a word motion lands within `line`, walking from `ofs`.
pub fn shift_word_impl(kind: ShiftWordKind, line: &Vec<char>, ofs: usize) -> (r: Option<usize>)
    requires
        ofs <= line@.len(),
    ensures
        r matches Some(o) ==> word_target(kind, line@, ofs as nat) == Some(o as nat),
        r is None ==> word_target(kind, line@, ofs as nat) is None,
{
    let line_len = line.len();
    let c = walk_vec(kind, line, ofs);
    let ghost cs = c@;
    if c.len() == 0 {
        assert(first_break(kind, cs, 1) is None);
        return None;
    }
    let mut prev = Char::from_pair(0, c[0]);
    let mut j: usize = 1;
    while j < c.len()
        invariant
            cs == c@,
            cs == walk_chars(kind, line@, ofs as nat),
            ofs <= line@.len(),
            line_len == line@.len(),
            1 <= j <= cs.len(),
            prev.pos == j - 1,
            prev.kind == char_kind(cs[j - 1]),
            first_break(kind, cs, 1) == first_break(kind, cs, j as nat),
        decreases cs.len() - j,
    {
        let next = Char::from_pair(j, c[j]);
        let (cur, res) = shift_word_cur(kind, prev, next);
        if cur.kind != CharKind::Space && !next.same_kind(&prev) && prev.pos != 0 {
            let pos = match res {
                Some(r) => r.pos,
                None => cur.pos,
            };
            proof {
                assert(word_break(kind, cs, j as int));
                assert(first_break(kind, cs, j as nat) == Some(j as nat));
                if kind == ShiftWordKind::PrevStart {
                    assert(cs.len() == ofs);
                }
            }
            return Some(shift_word_ofs(kind, ofs, pos));
        }
        proof {
            assert(!word_break(kind, cs, j as int));
        }
        prev = next;
        j = j + 1;
    }
    proof {
        assert(first_break(kind, cs, j as nat) is None);
        assert(cs.last() == cs[j - 1]);
    }
    shift_word_def(kind, prev)
}

/// Where the selection of a word motion starts within `line`, walking from `ofs`.
pub fn shift_word_sel(kind: ShiftWordKind, line: &Vec<char>, ofs: usize) -> (r: Option<usize>)
    requires
        ofs <= line@.len(),
    ensures
        r matches Some(o) ==> word_sel(kind, line@, ofs as nat) == Some(o as nat),
        r is None ==> word_sel(kind, line@, ofs as nat) is None,
{
    let line_len = line.len();
    let c = walk_vec(kind, line, ofs);
    if c.len() < 2 {
        return None;
    }
    let prev = Char::from_pair(0, c[0]);
    let next = Char::from_pair(1, c[1]);
    let pos = if prev.kind != CharKind::Space && !next.same_kind(&prev) {
        next.pos
    } else {
        prev.pos
    };
    proof {
        if kind == ShiftWordKind::PrevStart {
            assert(c@.len() == ofs);
        }
    }
    Some(shift_word_ofs(kind, ofs, pos))
}

/// A forward word motion from offset `ofs` of line `idx`.
pub fn shift_word_forward(kind: ShiftWordKind, text: &ropey::Rope, idx: usize, ofs: usize) -> (r: WordShiftPos)
    requires
        kind != ShiftWordKind::PrevStart,
        word_ok(kind, crate::rope::rope_text(*text), idx as nat, ofs as nat),
    ensures
        ((r.curs.0 as nat, r.curs.1 as nat), match r.sel {
            Some(s) => Some(s as nat),
            None => None,
        }) == forward_spec(kind, crate::rope::rope_text(*text), idx as nat, ofs as nat),
{
    let line = rope_line(text, idx);
    let sel = shift_word_sel(kind, &line, ofs);
    if let Some(shift_ofs) = shift_word_impl(kind, &line, ofs) {
        return WordShiftPos { curs: (idx, shift_ofs), sel };
    }
    let len_lines = crate::rope::rope_len_lines(text);
    let curs = if idx + 1 < len_lines {
        (idx + 1, 0)
    } else {
        (idx, line.len() - 1)
    };
    WordShiftPos { curs, sel }
}

/// A backward word motion from offset `ofs` of line `idx`.
pub fn shift_word_backward(text: &ropey::Rope, idx: usize, ofs: usize) -> (r: WordShiftPos)
    requires
        word_ok(ShiftWordKind::PrevStart, crate::rope::rope_text(*text), idx as nat, ofs as nat),
    ensures
        ((r.curs.0 as nat, r.curs.1 as nat), match r.sel {
            Some(s) => Some(s as nat),
            None => None,
        }) == backward_spec(crate::rope::rope_text(*text), idx as nat, ofs as nat),
{
    let ghost t = crate::rope::rope_text(*text);
    let line = rope_line(text, idx);
    let kind = ShiftWordKind::PrevStart;
    let ofs = if ofs != 0 {
        if ofs + 1 <= line.len() {
            ofs + 1
        } else {
            line.len()
        }
    } else {
        ofs
    };
    if let Some(shift_ofs) = shift_word_impl(kind, &line, ofs) {
        return WordShiftPos { curs: (idx, shift_ofs), sel: shift_word_sel(kind, &line, ofs) };
    }
    let curs = if idx > 0 {
        let above = rope_line(text, idx - 1);
        proof {
            lemma_line_not_last_nonempty(t, (idx - 1) as nat);
        }
        (idx - 1, above.len() - 1)
    } else {
        (idx, 0)
    };
    WordShiftPos { curs, sel: None }
}

/// A walk stops, if at all, at an index within it.
proof fn lemma_first_break_range(kind: ShiftWordKind, c: Seq<char>, from: nat)
    ensures
        first_break(kind, c, from) matches Some(j) ==> from <= j < c.len() && (from >= 1 ==> j
            >= 1),
    decreases c.len() - from,
{
    if from < c.len() && !(from >= 1 && word_break(kind, c, from as int)) {
        lemma_first_break_range(kind, c, from + 1);
    }
}

/// Word motions land within the line, and their selections start within it.
proof fn lemma_word_within(kind: ShiftWordKind, line: Seq<char>, ofs: nat)
    requires
        ofs <= line.len(),
    ensures
        word_target(kind, line, ofs) matches Some(o) ==> o < line.len() || (o == 0),
        word_sel(kind, line, ofs) matches Some(o) ==> o <= line.len(),
{
    let c = walk_chars(kind, line, ofs);
    lemma_first_break_range(kind, c, 1);
}

/// The selection as anchor and head.
pub open spec fn sel_view(s: Option<Selection>) -> Option<(nat, nat)> {
    match s {
        Some(x) => Some((x.anchor_spec(), x.head_spec())),
        None => None,
    }
}

/// Where a motion puts the cursor.
pub open spec fn shift_pos(b: BufferView, shift: Shift) -> (nat, nat) {
    match shift {
        Shift::Up(n) => shift_up_spec(b, n as nat),
        Shift::Down(n) => shift_down_spec(b, n as nat),
        Shift::Left => shift_left_spec(b),
        Shift::Right => shift_right_spec(b),
        Shift::Top => (0, 0),
        Shift::Bottom => ((len_lines(b.text) - 1) as nat, 0),
        Shift::LineStart => (b.index, 0),
        Shift::LineEnd => (b.index, last_ofs(b.text, b.index)),
        Shift::ByWord(k) => word_spec(k, b.text, b.index, b.offset).0,
    }
}

/// The selection before its head follows the cursor: dropped outside visual mode, and
/// started by a word motion where there is none.
pub open spec fn shift_sel_before(b: BufferView, shift: Shift) -> Option<(nat, nat)> {
    let kept = if b.mode == Mode::Visual {
        sel_view(b.selection)
    } else {
        None
    };
    match shift {
        Shift::ByWord(k) => match (kept, word_spec(k, b.text, b.index, b.offset).1) {
            (None, Some(o)) => Some(
                (line_to_byte(b.text, b.index) + o, line_to_byte(b.text, b.index) + o),
            ),
            _ => kept,
        },
        _ => kept,
    }
}

/// The buffer after a motion: the cursor moved, and the head of the selection, if any,
/// at the byte index of the new cursor.
pub open spec fn shift_view_ok(old: BufferView, new: BufferView, shift: Shift) -> bool {
    let (i, o) = shift_pos(old, shift);
    &&& new.text == old.text
    &&& new.mode == old.mode
    &&& new.vscroll == old.vscroll
    &&& new.index == i
    &&& new.offset == o
    &&& sel_view(new.selection) == match shift_sel_before(old, shift) {
        Some((a, _)) => Some((a, byte_pos_of(new))),
        None => None,
    }
}

/// The cursor stands on an existing line, within its bytes.
pub open spec fn cursor_ok(b: BufferView) -> bool {
    &&& b.index < len_lines(b.text)
    &&& b.offset <= line_len_bytes(b.text, b.index)
}

/// When a motion can run without panicking or overflowing.
pub open spec fn shift_ok(b: BufferView, shift: Shift) -> bool {
    &&& cursor_ok(b)
    &&& match shift {
        Shift::Down(n) => b.index + n <= usize::MAX,
        Shift::Right => b.offset < usize::MAX,
        Shift::ByWord(k) => word_ok(k, b.text, b.index, b.offset),
        _ => true,
    }
}

/// The cursor `n` lines up.
pub fn shift_up(n: usize, buf: &Buffer) -> (p: Pos)
    requires
        buf@.index < len_lines(buf@.text),
    ensures
        (p.0 as nat, p.1 as nat) == shift_up_spec(buf@, n as nat),
{
    let (idx, ofs) = buf.pos();
    let idx = if idx >= n {
        idx - n
    } else {
        0
    };
    let len = buf.line_len_bytes(idx);
    let last = if len > 0 {
        len - 1
    } else {
        0
    };
    let ofs = if ofs <= last {
        ofs
    } else {
        last
    };
    (idx, ofs)
}

/// The cursor `n` lines down.
pub fn shift_down(n: usize, buf: &Buffer) -> (p: Pos)
    requires
        buf@.index + n <= usize::MAX,
    ensures
        (p.0 as nat, p.1 as nat) == shift_down_spec(buf@, n as nat),
{
    let (idx, ofs) = buf.pos();
    let lines = buf.len_lines();
    let idx = if idx + n <= lines - 1 {
        idx + n
    } else {
        lines - 1
    };
    let len = buf.line_len_bytes(idx);
    let last = if len > 0 {
        len - 1
    } else {
        0
    };
    let ofs = if ofs <= last {
        ofs
    } else {
        last
    };
    (idx, ofs)
}

/// The cursor one byte left.
pub fn shift_left(buf: &Buffer) -> (p: Pos)
    requires
        buf@.index <= len_lines(buf@.text),
    ensures
        (p.0 as nat, p.1 as nat) == shift_left_spec(buf@),
{
    let (idx, ofs) = buf.pos();
    if ofs > 0 {
        (idx, ofs - 1)
    } else if idx > 0 {
        let len = buf.line_len_bytes(idx - 1);
        (idx - 1, if len > 0 {
            len - 1
        } else {
            0
        })
    } else {
        (idx, ofs)
    }
}

/// The cursor one byte right.
pub fn shift_right(buf: &Buffer) -> (p: Pos)
    requires
        buf@.index < len_lines(buf@.text),
        buf@.offset < usize::MAX,
    ensures
        (p.0 as nat, p.1 as nat) == shift_right_spec(buf@),
{
    let (idx, ofs) = buf.pos();
    let len = buf.line_len_bytes(idx);
    let last = if len > 0 {
        len - 1
    } else {
        0
    };
    let lines = buf.len_lines();
    let last_line = if lines > 0 {
        lines - 1
    } else {
        0
    };
    if ofs < last {
        (idx, ofs + 1)
    } else if idx < last_line {
        (if idx + 1 <= lines - 1 {
            idx + 1
        } else {
            lines - 1
        }, 0)
    } else {
        (idx, if ofs + 1 <= len {
            ofs + 1
        } else {
            len
        })
    }
}

/// A word motion: answers the new cursor, and starts a selection where the walk begins
/// when there is none.
pub fn shift_by_word(buf: &mut Buffer, kind: ShiftWordKind) -> (p: Pos)
    requires
        word_ok(kind, old(buf)@.text, old(buf)@.index, old(buf)@.offset),
    ensures
        (p.0 as nat, p.1 as nat) == word_spec(kind, old(buf)@.text, old(buf)@.index, old(buf)@.offset).0,
        final(buf)@ == (BufferView { selection: final(buf)@.selection, ..old(buf)@ }),
        sel_view(final(buf)@.selection) == match (sel_view(old(buf)@.selection), word_spec(kind, old(buf)@.text, old(buf)@.index, old(buf)@.offset).1) {
            (None, Some(o)) => Some((line_to_byte(old(buf)@.text, old(buf)@.index) + o, line_to_byte(old(buf)@.text, old(buf)@.index) + o)),
            (s, _) => s,
        },
{
    let ghost t = buf@.text;
    let (idx, ofs) = buf.pos();
    let total = buf.len_bytes();
    let r = match kind {
        ShiftWordKind::PrevStart => shift_word_backward(buf.text(), idx, ofs),
        _ => shift_word_forward(kind, buf.text(), idx, ofs),
    };
    if buf.selection().is_none() {
        if let Some(o) = r.sel {
            proof {
                let line = line_chars(t, idx as nat);
                if kind == ShiftWordKind::PrevStart {
                    lemma_word_within(kind, line, backward_start(line, ofs as nat));
                } else {
                    lemma_word_within(kind, line, ofs as nat);
                }
                lemma_line_bytes_within(t, idx as nat);
            }
            let start = buf.line_byte(idx);
            buf.new_selection(start + o);
        }
    }
    r.curs
}

/// A motion keeps the cursor on an existing line, within its bytes.
proof fn lemma_shift_pos_ok(b: BufferView, shift: Shift)
    requires
        shift_ok(b, shift),
    ensures
        cursor_ok(BufferView { index: shift_pos(b, shift).0, offset: shift_pos(b, shift).1, ..b }),
{
    let t = b.text;
    let (i, o) = shift_pos(b, shift);
    lemma_line_bytes_within(t, i);
    match shift {
        Shift::ByWord(k) => {
            let line = line_chars(t, b.index);
            lemma_line_bytes_within(t, b.index);
            if k == ShiftWordKind::PrevStart {
                lemma_word_within(k, line, backward_start(line, b.offset));
                if word_target(k, line, backward_start(line, b.offset)) is None && b.index > 0 {
                    lemma_line_not_last_nonempty(t, (b.index - 1) as nat);
                    lemma_line_bytes_within(t, (b.index - 1) as nat);
                }
            } else {
                lemma_word_within(k, line, b.offset);
            }
        },
        Shift::Left => {
            if b.offset == 0 && b.index > 0 {
                lemma_line_bytes_within(t, (b.index - 1) as nat);
            }
        },
        _ => {},
    }
}

/// Moves the cursor of `buf` by `shift`: outside visual mode the selection is dropped
/// first, a word motion may start one, and the head of the selection follows the cursor.
pub fn shift_buffer(buf: &mut Buffer, shift: Shift)
    requires
        shift_ok(old(buf)@, shift),
    ensures
        shift_view_ok(old(buf)@, final(buf)@, shift),
        cursor_ok(final(buf)@),
{
    let ghost b0 = buf@;
    let idx = buf.index();
    let total = buf.len_bytes();
    if !buf.is_visual() {
        buf.reset_selection();
    }
    let pos = match shift {
        Shift::Up(n) => shift_up(n, buf),
        Shift::Down(n) => shift_down(n, buf),
        Shift::Left => shift_left(buf),
        Shift::Right => shift_right(buf),
        Shift::Top => (0, 0),
        Shift::Bottom => (buf.len_lines() - 1, 0),
        Shift::LineStart => (idx, 0),
        Shift::LineEnd => {
            let len = buf.line_len_bytes(idx);
            (idx, if len > 0 {
                len - 1
            } else {
                0
            })
        },
        Shift::ByWord(kind) => shift_by_word(buf, kind),
    };
    proof {
        lemma_shift_pos_ok(b0, shift);
        lemma_line_bytes_within(b0.text, pos.0 as nat);
    }
    buf.set_pos(pos);
    let bp = buf.byte_pos();
    buf.update_selection(bp);
}

/// Whether `shift_ok` holds, computed.
pub fn shift_allowed(buf: &Buffer, shift: &Shift) -> (r: bool)
    ensures
        r == shift_ok(buf@, *shift),
{
    let idx = buf.index();
    let ofs = buf.offset();
    if idx >= buf.len_lines() || ofs > buf.line_len_bytes(idx) {
        return false;
    }
    match shift {
        Shift::Down(n) => idx <= usize::MAX - *n,
        Shift::Right => ofs < usize::MAX,
        Shift::ByWord(k) => {
            if ofs == usize::MAX {
                return false;
            }
            match k {
                ShiftWordKind::PrevStart => true,
                _ => {
                    let chars = buf.line_len_chars(idx);
                    ofs <= chars && (idx + 1 < buf.len_lines() || chars > 0)
                },
            }
        },
        _ => true,
    }
}

/// The document after a motion; where the cursor does not lie within the text, it is
/// unchanged.
pub open spec fn shift_doc_post(d0: crate::document::Document, d1: crate::document::Document, shift: Shift) -> bool {
    if shift_ok(d0.buffer@, shift) {
        &&& shift_view_ok(d0.buffer@, d1.buffer@, shift)
        &&& d1.history == d0.history
        &&& d1.transaction == d0.transaction
        &&& d1.id == d0.id
        &&& d1.meta == d0.meta
    } else {
        d1 == d0
    }
}

/// Moves the cursor of the current document by `shift`.
pub fn shift_cursor_impl(ws: &mut Workspace, shift: Shift)
    requires
        old(ws).wf(),
    ensures
        final(ws).wf(),
        others_unchanged(*old(ws), *final(ws)),
        shift_doc_post(old(ws).cur_doc(), final(ws).cur_doc(), shift),
{
    let ghost w0 = *ws;
    proof {
        assert(w0.documents@[w0.current as int].wf());
    }
    let doc = ws.cur_mut();
    if !shift_allowed(doc.buf(), &shift) {
        return;
    }
    shift_buffer(&mut doc.buffer, shift);
}

/// One char left.
pub fn move_left(ws: &mut Workspace)
    requires
        old(ws).wf(),
    ensures
        final(ws).wf(),
        others_unchanged(*old(ws), *final(ws)),
        shift_doc_post(old(ws).cur_doc(), final(ws).cur_doc(), Shift::Left),
{
    shift_cursor_impl(ws, Shift::Left);
}

/// One line down.
pub fn move_down(ws: &mut Workspace)
    requires
        old(ws).wf(),
    ensures
        final(ws).wf(),
        others_unchanged(*old(ws), *final(ws)),
        shift_doc_post(old(ws).cur_doc(), final(ws).cur_doc(), Shift::Down(1)),
{
    shift_cursor_impl(ws, Shift::Down(1));
}

/// One line up.
pub fn move_up(ws: &mut Workspace)
    requires
        old(ws).wf(),
    ensures
        final(ws).wf(),
        others_unchanged(*old(ws), *final(ws)),
        shift_doc_post(old(ws).cur_doc(), final(ws).cur_doc(), Shift::Up(1)),
{
    shift_cursor_impl(ws, Shift::Up(1));
}

/// One char right.
pub fn move_right(ws: &mut Workspace)
    requires
        old(ws).wf(),
    ensures
        final(ws).wf(),
        others_unchanged(*old(ws), *final(ws)),
        shift_doc_post(old(ws).cur_doc(), final(ws).cur_doc(), Shift::Right),
{
    shift_cursor_impl(ws, Shift::Right);
}

/// To the first line.
pub fn go_to_top_line(ws: &mut Workspace)
    requires
        old(ws).wf(),
    ensures
        final(ws).wf(),
        others_unchanged(*old(ws), *final(ws)),
        shift_doc_post(old(ws).cur_doc(), final(ws).cur_doc(), Shift::Top),
{
    shift_cursor_impl(ws, Shift::Top);
}

/// To the last line.
pub fn go_to_bottom_line(ws: &mut Workspace)
    requires
        old(ws).wf(),
    ensures
        final(ws).wf(),
        others_unchanged(*old(ws), *final(ws)),
        shift_doc_post(old(ws).cur_doc(), final(ws).cur_doc(), Shift::Bottom),
{
    shift_cursor_impl(ws, Shift::Bottom);
}

/// To the end of the line.
pub fn go_to_line_end(ws: &mut Workspace)
    requires
        old(ws).wf(),
    ensures
        final(ws).wf(),
        others_unchanged(*old(ws), *final(ws)),
        shift_doc_post(old(ws).cur_doc(), final(ws).cur_doc(), Shift::LineEnd),
{
    shift_cursor_impl(ws, Shift::LineEnd);
}

/// To the start of the line.
pub fn go_to_line_start(ws: &mut Workspace)
    requires
        old(ws).wf(),
    ensures
        final(ws).wf(),
        others_unchanged(*old(ws), *final(ws)),
        shift_doc_post(old(ws).cur_doc(), final(ws).cur_doc(), Shift::LineStart),
{
    shift_cursor_impl(ws, Shift::LineStart);
}

/// To the end of a word.
pub fn move_next_word_end(ws: &mut Workspace)
    requires
        old(ws).wf(),
    ensures
        final(ws).wf(),
        others_unchanged(*old(ws), *final(ws)),
        shift_doc_post(old(ws).cur_doc(), final(ws).cur_doc(), Shift::ByWord(ShiftWordKind::NextEnd)),
{
    shift_cursor_impl(ws, Shift::ByWord(ShiftWordKind::NextEnd));
}

/// Towards the start of the next word.
pub fn move_next_word_start(ws: &mut Workspace)
    requires
        old(ws).wf(),
    ensures
        final(ws).wf(),
        others_unchanged(*old(ws), *final(ws)),
        shift_doc_post(old(ws).cur_doc(), final(ws).cur_doc(), Shift::ByWord(ShiftWordKind::NextStart)),
{
    shift_cursor_impl(ws, Shift::ByWord(ShiftWordKind::NextStart));
}

/// Back to the start of a word.
pub fn move_prev_word_start(ws: &mut Workspace)
    requires
        old(ws).wf(),
    ensures
        final(ws).wf(),
        others_unchanged(*old(ws), *final(ws)),
        shift_doc_post(old(ws).cur_doc(), final(ws).cur_doc(), Shift::ByWord(ShiftWordKind::PrevStart)),
{
    shift_cursor_impl(ws, Shift::ByWord(ShiftWordKind::PrevStart));
}

/// Up law: moving up `n` lines goes to the line `n` above, the first line at least, and
/// keeps the byte offset when that line is long enough; else the cursor goes to the
/// line's last byte.
pub proof fn law_shift_up_keeps_column(b: BufferView, n: nat)
    ensures
        ({
            let (i, o) = shift_up_spec(b, n);
            let len = line_len_bytes(b.text, i);
            &&& (b.index >= n ==> i + n == b.index) && (b.index < n ==> i == 0)
            &&& b.offset < len ==> o == b.offset
            &&& b.offset >= len && len > 0 ==> o + 1 == len
            &&& len == 0 ==> o == 0
        }),
{
}

/// Down law: moving down `n` lines goes to the line `n` below, the last line at most,
/// and keeps the byte offset when that line is long enough; else the cursor goes to the
/// line's last byte.
pub proof fn law_shift_down_keeps_column(b: BufferView, n: nat)
    ensures
        ({
            let (i, o) = shift_down_spec(b, n);
            let len = line_len_bytes(b.text, i);
            &&& (b.index + n < len_lines(b.text) ==> i == b.index + n)
            &&& (b.index + n >= len_lines(b.text) ==> i + 1 == len_lines(b.text))
            &&& b.offset < len ==> o == b.offset
            &&& b.offset >= len && len > 0 ==> o + 1 == len
            &&& len == 0 ==> o == 0
        }),
{
}

/// Backward word law: from the start of a line below the first, a backward word motion
/// finds no word start in that line and goes to the last char of the line above, its
/// line break, so that it passes no word start of that line; no selection starts.
pub proof fn law_word_back_from_line_start(t: Seq<char>, idx: nat)
    requires
        0 < idx < len_lines(t),
    ensures
        ({
            let above = line_chars(t, (idx - 1) as nat);
            let (curs, sel) = word_spec(ShiftWordKind::PrevStart, t, idx, 0);
            &&& curs.0 + 1 == idx
            &&& curs.1 + 1 == above.len()
            &&& above[curs.1 as int] == '\n'
            &&& sel is None
        }),
{
    let line = line_chars(t, idx);
    assert(walk_chars(ShiftWordKind::PrevStart, line, 0).len() == 0);
    assert(first_break(ShiftWordKind::PrevStart, walk_chars(ShiftWordKind::PrevStart, line, 0), 1) is None);
    crate::text::lemma_line_start_break(t, idx);
    crate::text::lemma_line_start_strict(t, (idx - 1) as nat);
    crate::text::lemma_line_start_le_len(t, idx);
}

/// Motion law: left moves one byte back on the line, or from a line start to the last
/// byte of the line above; right moves one byte on while the line has a byte after the
/// cursor, else to the start of the line below, if any; top and bottom go to the start
/// of the first and the last line; line start and line end go to the first and the last
/// byte of the cursor line.
pub proof fn law_simple_motions(b: BufferView)
    ensures
        ({
            let t = b.text;
            let i = b.index;
            let o = b.offset;
            let len = line_len_bytes(t, i);
            &&& o > 0 ==> shift_pos(b, Shift::Left) == (i, (o - 1) as nat)
            &&& o == 0 && i > 0 ==> shift_pos(b, Shift::Left).0 + 1 == i
                && shift_pos(b, Shift::Left).1 + 1 >= line_len_bytes(t, (i - 1) as nat)
                && shift_pos(b, Shift::Left).1 <= line_len_bytes(t, (i - 1) as nat)
                && (line_len_bytes(t, (i - 1) as nat) > 0 ==> shift_pos(b, Shift::Left).1 + 1
                == line_len_bytes(t, (i - 1) as nat))
            &&& o == 0 && i == 0 ==> shift_pos(b, Shift::Left) == (0nat, 0nat)
            &&& o + 1 < len ==> shift_pos(b, Shift::Right) == (i, o + 1)
            &&& o + 1 >= len && i + 1 < len_lines(t) ==> shift_pos(b, Shift::Right) == (i + 1, 0nat)
            &&& shift_pos(b, Shift::Top) == (0nat, 0nat)
            &&& shift_pos(b, Shift::Bottom).0 + 1 == len_lines(t) && shift_pos(b, Shift::Bottom).1 == 0
            &&& shift_pos(b, Shift::LineStart) == (i, 0nat)
            &&& len > 0 ==> shift_pos(b, Shift::LineEnd) == (i, (len - 1) as nat)
            &&& len == 0 ==> shift_pos(b, Shift::LineEnd) == (i, 0nat)
        }),
{
}

/// Forward word law: from the last char of a line, a forward word motion finds no word
/// in that line and goes to the start of the line below, or, on the last line, stays on
/// that char.
pub proof fn law_word_forward_at_line_end(kind: ShiftWordKind, t: Seq<char>, idx: nat)
    requires
        kind != ShiftWordKind::PrevStart,
        line_chars(t, idx).len() > 0,
    ensures
        ({
            let ofs = (line_chars(t, idx).len() - 1) as nat;
            &&& idx + 1 < len_lines(t) ==> word_spec(kind, t, idx, ofs).0 == (idx + 1, 0nat)
            &&& idx + 1 >= len_lines(t) ==> word_spec(kind, t, idx, ofs).0 == (idx, ofs)
        }),
{
    let line = line_chars(t, idx);
    let ofs = (line.len() - 1) as nat;
    assert(walk_chars(kind, line, ofs).len() == 1);
    assert(first_break(kind, walk_chars(kind, line, ofs), 1) is None);
}

} // verus!
