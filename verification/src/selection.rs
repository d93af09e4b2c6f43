//! Selections in a text, and the split of a line into the spans that a selection
//! covers and those it does not.
use vstd::prelude::*;
use crate::rope::{rope_char, rope_len_chars, rope_text};

verus! {

/// A selection between an anchor, where it started, and a head, which moves.
#[derive(Debug, Clone, Copy, PartialEq, Eq, Structural, Default)]
pub struct Selection {
    anchor: usize,
    head: usize,
}

/// The smaller of two indices.
pub open spec fn min_nat(a: nat, b: nat) -> nat {
    if a <= b {
        a
    } else {
        b
    }
}

/// The larger of two indices.
pub open spec fn max_nat(a: nat, b: nat) -> nat {
    if a <= b {
        b
    } else {
        a
    }
}

impl Selection {
    /// Where the selection started.
    pub closed spec fn anchor_spec(&self) -> nat {
        self.anchor as nat
    }

    /// Where the selection ends now.
    pub closed spec fn head_spec(&self) -> nat {
        self.head as nat
    }

    /// First selected index.
    pub open spec fn start_spec(&self) -> nat {
        min_nat(self.anchor_spec(), self.head_spec())
    }

    /// Last selected index.
    pub open spec fn end_spec(&self) -> nat {
        max_nat(self.anchor_spec(), self.head_spec())
    }

    /// An empty selection at `pos`.
    pub fn new(pos: usize) -> (s: Self)
        ensures
            s.anchor_spec() == pos,
            s.head_spec() == pos,
    {
        Selection { anchor: pos, head: pos }
    }

    /// First selected index.
    pub fn start(&self) -> (r: usize)
        ensures
            r == self.start_spec(),
    {
        if self.head <= self.anchor {
            self.head
        } else {
            self.anchor
        }
    }

    /// Last selected index.
    pub fn end(&self) -> (r: usize)
        ensures
            r == self.end_spec(),
    {
        if self.head <= self.anchor {
            self.anchor
        } else {
            self.head
        }
    }

    /// First and last selected index.
    pub fn range(&self) -> (r: (usize, usize))
        ensures
            r.0 == self.start_spec(),
            r.1 == self.end_spec(),
    {
        (self.start(), self.end())
    }

    /// The selected chars of `text`, the last index included; a selection that ends at
    /// the end of the text stops one char before it. The rope crate panics when the range
    /// falls outside the text.
    pub fn slice(self, text: &ropey::Rope) -> (v: Vec<char>)
        requires
            rope_text(*text).len() > 0,
            slice_end(self.end_spec(), rope_text(*text).len()) < rope_text(*text).len(),
        ensures
            v@ == rope_text(*text).subrange(
                self.start_spec() as int,
                slice_end(self.end_spec(), rope_text(*text).len()) + 1,
            ),
    {
        let (start, end) = self.range();
        let len = rope_len_chars(text);
        let end = if end == len {
            end - 1
        } else {
            end
        };
        let mut v: Vec<char> = Vec::new();
        let mut i = start;
        while i <= end
            invariant
                start <= i <= end + 1,
                end < len,
                len == rope_text(*text).len(),
                v@ == rope_text(*text).subrange(start as int, i as int),
            decreases end + 1 - i,
        {
            v.push(rope_char(text, i));
            i = i + 1;
            assert(v@ =~= rope_text(*text).subrange(start as int, i as int));
        }
        v
    }

    /// Moves the head to `pos`.
    pub fn update(&mut self, pos: usize)
        ensures
            final(self).anchor_spec() == old(self).anchor_spec(),
            final(self).head_spec() == pos,
    {
        self.head = pos;
    }
}

/// Last index that a slice of a selection ending at `end` takes from a text of `len` chars.
pub open spec fn slice_end(end: nat, len: nat) -> int {
    if end == len {
        end - 1
    } else {
        end as int
    }
}

/// Whether a span is selected.
#[derive(Debug, Clone, Copy, PartialEq, Eq, Structural)]
pub enum SpanKind {
    Nothing,
    Selection,
}

/// A run of chars of a line, selected or not.
#[derive(Debug, PartialEq)]
pub struct SelectionSpan {
    pub slice: Vec<char>,
    pub kind: SpanKind,
}

impl View for SelectionSpan {
    type V = (Seq<char>, SpanKind);

    open spec fn view(&self) -> (Seq<char>, SpanKind) {
        (self.slice@, self.kind)
    }
}

/// How far a span walk at `cursor` is from its end: the walk goes from the line start to
/// the selection start, to its end, then to the line end.
pub open spec fn span_rank(n: nat, range: (nat, nat), cursor: nat) -> nat {
    if cursor == n {
        0
    } else if cursor == range.1 {
        1
    } else if cursor == range.0 {
        2
    } else {
        3
    }
}

/// One step of the span walk over a line of `n` chars `line`: the next cursor, and the
/// span it yields, if any.
pub open spec fn span_step(line: Seq<char>, range: (nat, nat), cursor: nat) -> (
    nat,
    Option<(Seq<char>, SpanKind)>,
) {
    let n = line.len();
    let (start, end) = range;
    if start == end {
        (cursor, None)
    } else {
        let (next, slice, kind) = if cursor == start {
            (end, Some(line.subrange(cursor as int, end + 1 as int)), SpanKind::Selection)
        } else if cursor == end && cursor != n {
            (n, Some(line.subrange(min_nat(end + 1, n) as int, n as int)), SpanKind::Nothing)
        } else if cursor == 0 {
            (start, Some(line.subrange(0, start as int)), SpanKind::Nothing)
        } else {
            (cursor, None, SpanKind::Nothing)
        };
        match slice {
            Some(s) => if s.len() != 0 {
                (next, Some((s, kind)))
            } else {
                (next, None)
            },
            None => (next, None),
        }
    }
}

/// The spans that the walk yields from `cursor` on, up to the first step that yields none.
pub open spec fn spans_from(line: Seq<char>, range: (nat, nat), cursor: nat) -> Seq<
    (Seq<char>, SpanKind),
>
    decreases span_rank(line.len(), range, cursor),
    when range.0 <= range.1 && (range.0 != range.1 ==> range.1 < line.len())
{
    let (next, item) = span_step(line, range, cursor);
    match item {
        Some(s) => seq![s] + spans_from(line, range, next),
        None => Seq::empty(),
    }
}

/// Walks a line and yields its spans: the chars before the selection, the selected
/// ones, and those after it.
pub struct SpanIterator {
    cursor: usize,
    line: Vec<char>,
    range: (usize, usize),
}

impl SpanIterator {
    /// Index where the walk stands.
    pub closed spec fn cursor_spec(&self) -> nat {
        self.cursor as nat
    }

    /// The line walked.
    pub closed spec fn line_spec(&self) -> Seq<char> {
        self.line@
    }

    /// The selected range within the line, both ends included.
    pub closed spec fn range_spec(&self) -> (nat, nat) {
        (self.range.0 as nat, self.range.1 as nat)
    }

    /// A walk over `line` with the selected range `range`, from the line start.
    pub fn new(line: Vec<char>, range: (usize, usize)) -> (it: Self)
        ensures
            it.cursor_spec() == 0,
            it.line_spec() == line@,
            it.range_spec() == (range.0 as nat, range.1 as nat),
    {
        SpanIterator { cursor: 0, line, range }
    }

    /// The next span; slicing panics on a selected range that is reversed or, when not
    /// empty, reaches past the line, hence the requirement.
    pub fn next(&mut self) -> (r: Option<SelectionSpan>)
        requires
            old(self).range_spec().0 <= old(self).range_spec().1,
            old(self).range_spec().0 != old(self).range_spec().1 ==> old(self).range_spec().1
                < old(self).line_spec().len(),
        ensures
            final(self).line_spec() == old(self).line_spec(),
            final(self).range_spec() == old(self).range_spec(),
            final(self).cursor_spec() == span_step(
                old(self).line_spec(),
                old(self).range_spec(),
                old(self).cursor_spec(),
            ).0,
            r matches Some(s) ==> span_step(
                old(self).line_spec(),
                old(self).range_spec(),
                old(self).cursor_spec(),
            ).1 == Some(s@),
            r is None ==> span_step(
                old(self).line_spec(),
                old(self).range_spec(),
                old(self).cursor_spec(),
            ).1 is None,
    {
        let current = self.cursor;
        let (start, end) = self.range;
        let line_len = self.line.len();
        if start == end {
            return None;
        }
        let mut kind = SpanKind::Nothing;
        let slice = if current == start {
            self.cursor = end;
            kind = SpanKind::Selection;
            copy_range(&self.line, current, end + 1)
        } else if current == end && current != line_len {
            self.cursor = line_len;
            let from = if end + 1 <= line_len {
                end + 1
            } else {
                line_len
            };
            copy_range(&self.line, from, line_len)
        } else if current == 0 {
            self.cursor = start;
            copy_range(&self.line, current, start)
        } else {
            return None;
        };
        if slice.len() != 0 {
            Some(SelectionSpan { slice, kind })
        } else {
            None
        }
    }
}

/// The chars of `v` at indices `from..to`.
pub fn copy_range(v: &Vec<char>, from: usize, to: usize) -> (r: Vec<char>)
    requires
        from <= to <= v@.len(),
    ensures
        r@ == v@.subrange(from as int, to as int),
{
    let mut r: Vec<char> = Vec::new();
    let mut i = from;
    while i < to
        invariant
            from <= i <= to <= v@.len(),
            r@ == v@.subrange(from as int, i as int),
        decreases to - i,
    {
        r.push(v[i]);
        i = i + 1;
        assert(r@ =~= v@.subrange(from as int, i as int));
    }
    r
}

/// Whether the selection `(start, end)` overlaps the line that starts at char `line_idx`
/// and is shown `max_len` chars wide.
pub open spec fn overlaps(line_idx: nat, max_len: nat, start: nat, end: nat) -> bool {
    start < line_idx + max_len && line_idx <= end
}

/// `a - b`, or zero when `b` is larger.
pub open spec fn sat_sub(a: nat, b: nat) -> nat {
    if a >= b {
        (a - b) as nat
    } else {
        0
    }
}

/// The selection `(start, end)` within the line that starts at char `line_idx`, cut to
/// `max_len`.
pub open spec fn in_line_range(line_idx: nat, max_len: nat, start: nat, end: nat) -> (nat, nat) {
    (min_nat(sat_sub(start, line_idx), max_len), min_nat(sat_sub(end, line_idx), max_len))
}

/// The spans of a line for a selection, as `selection_spans` gives them.
pub open spec fn line_spans(line: Seq<char>, line_idx: nat, max_len: nat, sel: (nat, nat)) -> Seq<
    (Seq<char>, SpanKind),
> {
    if overlaps(line_idx, max_len, sel.0, sel.1) {
        if line == seq!['\n'] {
            seq![(seq![' '], SpanKind::Selection)]
        } else {
            spans_from(line, in_line_range(line_idx, max_len, sel.0, sel.1), 0)
        }
    } else {
        Seq::empty()
    }
}

/// The spans of `line`, which starts at char `line_idx` and is shown `max_len` chars wide,
/// for the selection `selection`: a selected line break alone shows as one selected space.
/// The walk panics on a selected range that reaches past the line, hence the requirement.
pub fn selection_spans(line_idx: usize, max_len: usize, line: Vec<char>, selection: (usize, usize)) -> (r: Vec<SelectionSpan>)
    requires
        selection.0 <= selection.1,
        ({
            let r = in_line_range(line_idx as nat, max_len as nat, selection.0 as nat, selection.1 as nat);
            overlaps(line_idx as nat, max_len as nat, selection.0 as nat, selection.1 as nat)
                && line@ != seq!['\n'] && r.0 != r.1 ==> r.1 < line@.len()
        }),
    ensures
        r@.map_values(|s: SelectionSpan| s@) == line_spans(
            line@,
            line_idx as nat,
            max_len as nat,
            (selection.0 as nat, selection.1 as nat),
        ),
{
    let (start, end) = selection;
    let overlaps = (start as u128) < (line_idx as u128) + (max_len as u128) && line_idx <= end;
    if overlaps && line.len() == 1 && line[0] == '\n' {
        let mut slice: Vec<char> = Vec::new();
        slice.push(' ');
        let mut v: Vec<SelectionSpan> = Vec::new();
        v.push(SelectionSpan { slice, kind: SpanKind::Selection });
        proof {
            assert(line@ =~= seq!['\n']);
            assert(v@.map_values(|s: SelectionSpan| s@) =~= seq![(seq![' '], SpanKind::Selection)]);
        }
        return v;
    }
    proof {
        if overlaps {
            assert(line@ != seq!['\n']) by {
                if line@ == seq!['\n'] {
                    assert(line@.len() == 1 && line@[0] == '\n');
                }
            }
        }
    }
    let mut v: Vec<SelectionSpan> = Vec::new();
    if !overlaps {
        assert(v@.map_values(|s: SelectionSpan| s@) =~= Seq::<(Seq<char>, SpanKind)>::empty());
        return v;
    }
    let a = if start >= line_idx { start - line_idx } else { 0 };
    let b = if end >= line_idx { end - line_idx } else { 0 };
    let in_start = if a <= max_len { a } else { max_len };
    let in_end = if b <= max_len { b } else { max_len };
    let ghost l = line@;
    let ghost range = (in_start as nat, in_end as nat);
    assert(range == in_line_range(line_idx as nat, max_len as nat, start as nat, end as nat));
    assert(line_spans(l, line_idx as nat, max_len as nat, (start as nat, end as nat)) == spans_from(l, range, 0));
    let mut it = SpanIterator::new(line, (in_start, in_end));
    assert(v@.map_values(|s: SelectionSpan| s@) =~= Seq::<(Seq<char>, SpanKind)>::empty());
    loop
        invariant
            it.line_spec() == l,
            it.range_spec() == range,
            range.0 <= range.1,
            range.0 != range.1 ==> range.1 < l.len(),
            spans_from(l, range, 0) == line_spans(l, line_idx as nat, max_len as nat, (selection.0 as nat, selection.1 as nat)),
            l == line@,
            v@.map_values(|s: SelectionSpan| s@) + spans_from(l, range, it.cursor_spec())
                == spans_from(l, range, 0),
        decreases span_rank(l.len(), range, it.cursor_spec()),
    {
        let ghost before = it.cursor_spec();
        let ghost vb = v@.map_values(|s: SelectionSpan| s@);
        match it.next() {
            Some(s) => {
                proof {
                    lemma_span_step_rank(l, range, before);
                    assert(spans_from(l, range, before) == seq![s@] + spans_from(
                        l,
                        range,
                        it.cursor_spec(),
                    ));
                }
                v.push(s);
                proof {
                    assert(v@.map_values(|s: SelectionSpan| s@) =~= vb.push(s@));
                    assert(vb.push(s@) + spans_from(l, range, it.cursor_spec()) =~= vb + (seq![s@]
                        + spans_from(l, range, it.cursor_spec())));
                }
            },
            None => {
                proof {
                    assert(spans_from(l, range, before) == Seq::<(Seq<char>, SpanKind)>::empty());
                    assert(vb + Seq::<(Seq<char>, SpanKind)>::empty() =~= vb);
                }
                return v;
            },
        }
    }
}

/// A step that yields a span brings the walk closer to its end.
proof fn lemma_span_step_rank(line: Seq<char>, range: (nat, nat), cursor: nat)
    requires
        range.0 <= range.1,
        range.0 != range.1 ==> range.1 < line.len(),
        span_step(line, range, cursor).1 is Some,
    ensures
        span_rank(line.len(), range, span_step(line, range, cursor).0) < span_rank(
            line.len(),
            range,
            cursor,
        ),
{
}

} // verus!
