//! What the screen shows of the editor: the size of the text area, the cursor in it, and
//! the runs of each line shown, selected or not.
use vstd::prelude::*;
use crate::buffer::{Buffer, Mode};
use crate::selection::{
    copy_range, line_spans, min_nat, sat_sub, selection_spans, Selection, SelectionSpan, SpanKind,
};
use crate::text::{len_lines, line_chars, line_to_byte};

verus! {

/// Size of the text area, in cells.
#[derive(Debug, Clone, Copy, PartialEq, Eq, Structural)]
pub struct Viewport {
    pub width: usize,
    pub height: usize,
}

impl Default for Viewport {
    /// An empty area.
    fn default() -> (v: Self)
        ensures
            v.width == 0 && v.height == 0,
    {
        Viewport { width: 0, height: 0 }
    }
}

/// Where the cursor is drawn, in cells of the text area, and the mode it shows.
#[derive(Debug, Clone, Copy, PartialEq, Eq, Structural)]
pub struct Cursor {
    pub x: u16,
    pub y: u16,
    pub mode: Mode,
}

/// The runs of a shown line: the spans of the selection where it covers part of the
/// line, else the whole line as one plain run.
pub open spec fn shown_line(line: Seq<char>, line_idx: nat, max_len: nat, sel: Option<(nat, nat)>) -> Seq<
    (Seq<char>, SpanKind),
> {
    let plain = seq![(line, SpanKind::Nothing)];
    match sel {
        None => plain,
        Some((a, b)) => if a == b {
            plain
        } else {
            let spans = line_spans(line, line_idx, max_len, (a, b));
            if spans.len() == 0 {
                plain
            } else {
                spans
            }
        },
    }
}

/// How many chars of a line of `n` chars are shown in a text area `width` cells wide:
/// its line break left out.
pub open spec fn shown_width(n: nat, width: nat) -> nat {
    min_nat(width, sat_sub(n, 1))
}

/// The selected range of a buffer, first and last index.
pub open spec fn sel_range(s: Option<Selection>) -> Option<(nat, nat)> {
    match s {
        Some(x) => Some((x.start_spec(), x.end_spec())),
        None => None,
    }
}

/// The runs of a shown line, for the selected range `selection`.
pub fn render_line(line_idx: usize, max_len: usize, line: Vec<char>, selection: Option<(usize, usize)>) -> (v: Vec<SelectionSpan>)
    requires
        selection matches Some(r) ==> r.0 <= r.1,
        max_len < line@.len() || max_len == 0,
    ensures
        v@.map_values(|s: SelectionSpan| s@) == shown_line(
            line@,
            line_idx as nat,
            max_len as nat,
            match selection {
                Some(r) => Some((r.0 as nat, r.1 as nat)),
                None => None,
            },
        ),
{
    let range = match selection {
        None => return plain_line(line),
        Some(r) => r,
    };
    if range.0 == range.1 {
        return plain_line(line);
    }
    let plain = plain_line(copy_range(&line, 0, line.len()));
    proof {
        assert(line@.subrange(0, line@.len() as int) =~= line@);
    }
    let spans = selection_spans(line_idx, max_len, line, range);
    if spans.len() == 0 {
        plain
    } else {
        spans
    }
}

/// The whole line as one plain run.
fn plain_line(line: Vec<char>) -> (v: Vec<SelectionSpan>)
    ensures
        v@.map_values(|s: SelectionSpan| s@) == seq![(line@, SpanKind::Nothing)],
{
    let mut v: Vec<SelectionSpan> = Vec::new();
    let ghost l = line@;
    v.push(SelectionSpan { slice: line, kind: SpanKind::Nothing });
    assert(v@.map_values(|s: SelectionSpan| s@) =~= seq![(l, SpanKind::Nothing)]);
    v
}

/// The runs of each line shown of `buf` in a text area of `viewport`: as many lines as
/// fit, from the first line shown, each one cut to the width. The rope crate panics on
/// a line past the end of the text, hence the requirement.
pub fn text_lines(buf: &Buffer, viewport: Viewport) -> (v: Vec<Vec<SelectionSpan>>)
    requires
        buf@.vscroll + min_nat(viewport.height as nat, len_lines(buf@.text)) <= len_lines(buf@.text),
    ensures
        v@.len() == min_nat(viewport.height as nat, len_lines(buf@.text)),
        forall|y: int| 0 <= y < v@.len() ==> {
            let index = (buf@.vscroll + y) as nat;
            let line = line_chars(buf@.text, index);
            (#[trigger] v@[y])@.map_values(|s: SelectionSpan| s@) == shown_line(
                line,
                line_to_byte(buf@.text, index),
                shown_width(line.len(), viewport.width as nat),
                sel_range(buf@.selection),
            )
        },
{
    let n = buf.len_lines();
    let max_y = if viewport.height <= n { viewport.height } else { n };
    let vscroll = buf.vscroll();
    let selection = match buf.selection() {
        Some(s) => Some(s.range()),
        None => None,
    };
    let mut v: Vec<Vec<SelectionSpan>> = Vec::new();
    let mut y: usize = 0;
    while y < max_y
        invariant
            n == len_lines(buf@.text),
            max_y == min_nat(viewport.height as nat, n as nat),
            vscroll == buf@.vscroll,
            vscroll + max_y <= n,
            match buf@.selection {
                Some(x) => selection matches Some(r) && r.0 == x.start_spec() && r.1 == x.end_spec(),
                None => selection is None,
            },
            y <= max_y,
            v@.len() == y,
            forall|k: int| 0 <= k < y ==> {
                let index = (buf@.vscroll + k) as nat;
                let line = line_chars(buf@.text, index);
                (#[trigger] v@[k])@.map_values(|s: SelectionSpan| s@) == shown_line(
                    line,
                    line_to_byte(buf@.text, index),
                    shown_width(line.len(), viewport.width as nat),
                    sel_range(buf@.selection),
                )
            },
        decreases max_y - y,
    {
        let index = vscroll + y;
        let line = buf.line(index);
        let line_idx = buf.line_byte(index);
        let last = if line.len() >= 1 { line.len() - 1 } else { 0 };
        let max_len = if viewport.width <= last { viewport.width } else { last };
        let ghost l = line@;
        let spans = render_line(line_idx, max_len, line, selection);
        proof {
            assert(match selection {
                Some(r) => Some((r.0 as nat, r.1 as nat)),
                None => None,
            } == sel_range(buf@.selection));
            assert(max_len == shown_width(l.len(), viewport.width as nat));
        }
        v.push(spans);
        y = y + 1;
    }
    v
}

} // verus!
