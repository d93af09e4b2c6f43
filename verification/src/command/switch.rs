//! Commands that switch the editing mode.
use vstd::prelude::*;
use crate::buffer::{byte_pos_of, Buffer, BufferView, Mode};
use crate::command::modify::{others_unchanged, pending_or_empty, pos_ok};
use crate::document::{pending_edits, Document};
use crate::editor::Workspace;
use crate::history::record_view;
use crate::movement::{min, shift_down_spec};
use crate::text::{
    count_nl, lemma_count_nl_concat, lemma_line_start_break, lemma_line_start_le_len,
    lemma_line_start_mono_le, lemma_line_start_prefix, lemma_line_start_unique, len_lines,
    line_chars, line_len_bytes, line_start, line_to_byte,
};
use crate::transaction::{
    apply_edits, fit_len, lemma_fit_len_applies, push_insert, push_move, Edit, TransactionResult,
};

verus! {

/// Where insert mode starts.
pub enum Switch {
    Inplace,
    LineStart,
    LineEnd,
    LineNext,
    LinePrev,
}

/// Leaves visual mode: the selection is dropped and the mode is normal.
pub fn visual_to_normal_impl(buf: &mut Buffer)
    ensures
        final(buf)@ == (BufferView { selection: None, mode: Mode::Normal, ..old(buf)@ }),
{
    buf.reset_selection();
    buf.set_mode(Mode::Normal);
}

/// Leaves insert mode: the mode is normal and the pending transaction is committed.
pub fn insert_to_normal_impl(doc: &mut Document)
    requires
        old(doc).wf(),
    ensures
        final(doc).wf(),
        final(doc).id == old(doc).id,
        final(doc).meta == old(doc).meta,
        final(doc).buffer@ == (BufferView { mode: Mode::Normal, ..old(doc).buffer@ }),
        final(doc).history@ == record_view(old(doc).history@, pending_or_empty(*old(doc))),
        final(doc).transaction is None,
{
    let tx = doc.take_transaction();
    doc.buffer.set_mode(Mode::Normal);
    doc.end_transaction(tx, TransactionResult::Commit);
}

/// The document after the switch to normal mode.
pub open spec fn normal_mode_post(d0: Document, d1: Document) -> bool {
    let b = d0.buffer@;
    &&& d1.id == d0.id
    &&& d1.meta == d0.meta
    &&& match b.mode {
        Mode::Insert => {
            &&& d1.buffer@ == (BufferView { mode: Mode::Normal, ..b })
            &&& d1.history@ == record_view(d0.history@, pending_or_empty(d0))
            &&& d1.transaction is None
        },
        Mode::Visual => {
            &&& d1.buffer@ == (BufferView { selection: None, mode: Mode::Normal, ..b })
            &&& d1.history == d0.history
            &&& d1.transaction == d0.transaction
        },
        _ => {
            &&& d1.buffer@ == (BufferView { mode: Mode::Normal, ..b })
            &&& d1.history == d0.history
            &&& d1.transaction == d0.transaction
        },
    }
}

/// Switches the current document to normal mode: from insert mode the pending
/// transaction is committed, from visual mode the selection is dropped.
pub fn normal_mode(ws: &mut Workspace)
    requires
        old(ws).wf(),
    ensures
        final(ws).wf(),
        others_unchanged(*old(ws), *final(ws)),
        normal_mode_post(old(ws).cur_doc(), final(ws).cur_doc()),
{
    let ghost w0 = *ws;
    proof {
        assert(w0.documents@[w0.current as int].wf());
    }
    let doc = ws.cur_mut();
    match doc.buffer.mode() {
        Mode::Insert => insert_to_normal_impl(doc),
        Mode::Visual => visual_to_normal_impl(&mut doc.buffer),
        _ => doc.buffer.set_mode(Mode::Normal),
    }
}

/// The document after the switch to visual mode: an empty selection at the byte index of
/// the cursor. Where the cursor does not lie within the text, so that this index has no
/// value, nothing changes.
pub open spec fn visual_mode_post(d0: Document, d1: Document) -> bool {
    let b = d0.buffer@;
    if pos_ok(b) {
        &&& d1.buffer@ == (BufferView { mode: Mode::Visual, selection: d1.buffer@.selection, ..b })
        &&& d1.buffer@.selection matches Some(s) && s.anchor_spec() == byte_pos_of(b)
            && s.head_spec() == byte_pos_of(b)
        &&& d1.history == d0.history
        &&& d1.transaction == d0.transaction
        &&& d1.id == d0.id
        &&& d1.meta == d0.meta
    } else {
        d1 == d0
    }
}

/// Switches the current document to visual mode with an empty selection at the cursor.
pub fn visual_mode(ws: &mut Workspace)
    requires
        old(ws).wf(),
    ensures
        final(ws).wf(),
        others_unchanged(*old(ws), *final(ws)),
        visual_mode_post(old(ws).cur_doc(), final(ws).cur_doc()),
{
    let ghost w0 = *ws;
    proof {
        assert(w0.documents@[w0.current as int].wf());
    }
    let doc = ws.cur_mut();
    if !crate::command::modify::check_pos(doc.buf()) {
        return;
    }
    let pos = doc.buffer.byte_pos();
    doc.buffer.new_selection(pos);
    doc.buffer.set_mode(Mode::Visual);
}

/// The document after the switch to search mode.
pub open spec fn search_mode_post(d0: Document, d1: Document) -> bool {
    &&& d1.buffer@ == (BufferView { mode: Mode::Search, ..d0.buffer@ })
    &&& d1.history == d0.history
    &&& d1.transaction == d0.transaction
    &&& d1.id == d0.id
    &&& d1.meta == d0.meta
}

/// Switches the current document to search mode.
pub fn search_mode(ws: &mut Workspace)
    requires
        old(ws).wf(),
    ensures
        final(ws).wf(),
        others_unchanged(*old(ws), *final(ws)),
        search_mode_post(old(ws).cur_doc(), final(ws).cur_doc()),
{
    let ghost w0 = *ws;
    proof {
        assert(w0.documents@[w0.current as int].wf());
    }
    let doc = ws.cur_mut();
    doc.buffer.set_mode(Mode::Search);
}

/// The document after selecting the cursor line: the selection from the line start to
/// its last byte, in visual mode. Where the cursor line does not exist, nothing changes.
pub open spec fn select_line_post(d0: Document, d1: Document) -> bool {
    let b = d0.buffer@;
    if b.index < len_lines(b.text) {
        let start = line_to_byte(b.text, b.index);
        let len = line_len_bytes(b.text, b.index);
        let end = if len > 0 { start + len - 1 } else { start as int };
        &&& d1.buffer@ == (BufferView { mode: Mode::Visual, selection: d1.buffer@.selection, ..b })
        &&& d1.buffer@.selection matches Some(s) && s.anchor_spec() == start && s.head_spec() == end
        &&& d1.history == d0.history
        &&& d1.transaction == d0.transaction
        &&& d1.id == d0.id
        &&& d1.meta == d0.meta
    } else {
        d1 == d0
    }
}

/// Selects the cursor line of the current document, in visual mode.
pub fn select_line(ws: &mut Workspace)
    requires
        old(ws).wf(),
    ensures
        final(ws).wf(),
        others_unchanged(*old(ws), *final(ws)),
        select_line_post(old(ws).cur_doc(), final(ws).cur_doc()),
{
    let ghost w0 = *ws;
    proof {
        assert(w0.documents@[w0.current as int].wf());
    }
    let doc = ws.cur_mut();
    let idx = doc.buffer.index();
    if idx >= doc.buffer.len_lines() {
        return;
    }
    proof {
        crate::text::lemma_line_bytes_within(doc.buffer@.text, idx as nat);
    }
    let total = doc.buffer.len_bytes();
    let start = doc.buffer.line_byte(idx);
    let len = doc.buffer.line_len_bytes(idx);
    let end = if len > 0 {
        start + len - 1
    } else {
        start
    };
    doc.buffer.new_selection(start);
    doc.buffer.update_selection(end);
    doc.buffer.set_mode(Mode::Visual);
}

/// The cursor after moving to the end of its line: past the last char on the last
/// line, on the line break elsewhere.
pub open spec fn line_end_offset(b: BufferView) -> nat {
    let len = line_len_bytes(b.text, b.index);
    if b.index < len_lines(b.text) - 1 {
        (len - 1) as nat
    } else {
        len
    }
}

/// Moves the cursor to the end of its line.
pub fn switch_line_end(buf: &mut Buffer)
    requires
        old(buf)@.index < len_lines(old(buf)@.text),
    ensures
        final(buf)@ == (BufferView { offset: line_end_offset(old(buf)@), ..old(buf)@ }),
{
    let idx = buf.index();
    let len = buf.line_len_bytes(idx);
    buf.set_offset(len);
    if idx < buf.len_lines() - 1 {
        proof {
            crate::text::lemma_line_not_last_nonempty(buf@.text, idx as nat);
            crate::text::lemma_line_bytes_within(buf@.text, idx as nat);
        }
        let ofs = buf.offset() - 1;
        buf.set_offset(ofs);
    }
}

/// The edits after opening a line at `line_pos`: a move, a line break, a move.
pub open spec fn new_line_edits(es: Seq<Edit>, line_pos: nat) -> Seq<Edit> {
    push_move(push_insert(push_move(es), line_pos, seq!['\n']))
}

/// After opening a line at `line_pos`: the pending transaction with the line break is
/// replayed on the text and kept pending. Where the edits do not fit the text (the rope
/// crate would panic), nothing changes.
pub open spec fn with_new_line_post(d0: Document, d1: Document, line_pos: nat) -> bool {
    let b = d0.buffer@;
    let es1 = new_line_edits(pending_or_empty(d0), line_pos);
    if fit_len(b.text.len(), es1) is Some {
        &&& d1.buffer@ == (BufferView { text: apply_edits(b.text, es1)->0, ..b })
        &&& d1.history == d0.history
        &&& d1.id == d0.id
        &&& d1.meta == d0.meta
        &&& pending_edits(d1.transaction) == Some(es1)
    } else {
        d1 == d0
    }
}

/// Fit of the pending edits after opening a line, from the fit of the pending ones.
proof fn lemma_new_line_fit(n: nat, es: Seq<Edit>, line_pos: nat)
    ensures
        fit_len(n, new_line_edits(es, line_pos)) == match fit_len(n, es) {
            Some(m) => if line_pos <= m && m + 1 <= usize::MAX {
                Some(m + 1)
            } else {
                None
            },
            None => None,
        },
{
    let e1 = push_move(es);
    assert(fit_len(n, e1) == fit_len(n, es)) by {
        if !(es.len() > 0 && es.last() is Move) {
            assert(e1.drop_last() =~= es);
        }
    }
    let e2 = push_insert(e1, line_pos, seq!['\n']);
    assert(e1.len() > 0 && e1.last() is Move);
    assert(e2 == e1.push(Edit::Insert(seq!['\n'], line_pos)));
    assert(e2.drop_last() =~= e1);
    assert(e2.last() == Edit::Insert(seq!['\n'], line_pos));
    let e3 = push_move(e2);
    assert(e3 == e2.push(Edit::Move));
    assert(e3.drop_last() =~= e2);
    assert(seq!['\n'].len() == 1);
    assert(fit_len(n, e3) == fit_len(n, e2));
    assert(fit_len(n, e2) == match fit_len(n, e1) {
        Some(m) => if line_pos <= m && m + 1 <= usize::MAX {
            Some(m + 1)
        } else {
            None
        },
        None => None,
    });
}

/// Opens a line at `line_pos` in the pending transaction and replays it on the text;
/// answers whether the edits fit the text.
pub fn switch_with_new_line(doc: &mut Document, line_pos: usize) -> (r: bool)
    requires
        old(doc).wf(),
    ensures
        final(doc).wf(),
        r == fit_len(old(doc).buffer@.text.len(), new_line_edits(pending_or_empty(*old(doc)), line_pos as nat)) is Some,
        with_new_line_post(*old(doc), *final(doc), line_pos as nat),
{
    let ghost d0 = *doc;
    let len = doc.buffer.len_chars();
    let m = match &doc.transaction {
        Some(tx) => tx.fit_length(len),
        None => Some(len),
    };
    proof {
        lemma_new_line_fit(len as nat, pending_or_empty(d0), line_pos as nat);
        if doc.transaction is None {
            assert(fit_len(len as nat, Seq::<Edit>::empty()) == Some(len as nat));
        }
    }
    match m {
        Some(m) => {
            if line_pos > m || m == usize::MAX {
                return false;
            }
        },
        None => {
            return false;
        },
    }
    let mut tx = doc.take_transaction();
    tx.shift();
    tx.insert_char(line_pos, '\n');
    tx.shift();
    proof {
        lemma_fit_len_applies(d0.buffer@.text, tx@);
    }
    tx.apply(doc.buffer.text_mut());
    doc.end_transaction(tx, TransactionResult::Keep);
    true
}

/// The buffer and pending edits after opening a line below the cursor line.
pub open spec fn line_next_result(d0: Document) -> (BufferView, Option<Seq<Edit>>) {
    let b = d0.buffer@;
    let line_pos = line_to_byte(b.text, b.index + 1);
    let es1 = new_line_edits(pending_or_empty(d0), line_pos);
    if fit_len(b.text.len(), es1) is Some {
        let b1 = BufferView { text: apply_edits(b.text, es1)->0, ..b };
        let (i, o) = shift_down_spec(b1, 1);
        (BufferView { index: i, offset: o, ..b1 }, Some(es1))
    } else {
        (b, pending_edits(d0.transaction))
    }
}

/// The buffer and pending edits after opening a line above the cursor line.
pub open spec fn line_prev_result(d0: Document) -> (BufferView, Option<Seq<Edit>>) {
    let b = d0.buffer@;
    let line_pos = line_to_byte(b.text, b.index);
    let b0 = BufferView { offset: 0, ..b };
    let es1 = new_line_edits(pending_or_empty(d0), line_pos);
    if fit_len(b.text.len(), es1) is Some {
        (BufferView { text: apply_edits(b.text, es1)->0, ..b0 }, Some(es1))
    } else {
        (b0, pending_edits(d0.transaction))
    }
}

/// Opens a line below the cursor line and moves the cursor to it. Where the edits would
/// not fit the text (the rope crate would panic), nothing changes.
pub fn switch_line_next(doc: &mut Document)
    requires
        old(doc).wf(),
        old(doc).buffer@.index < len_lines(old(doc).buffer@.text),
        old(doc).buffer@.index < usize::MAX,
    ensures
        final(doc).wf(),
        final(doc).buffer@ == line_next_result(*old(doc)).0,
        pending_edits(final(doc).transaction) == line_next_result(*old(doc)).1,
        final(doc).history == old(doc).history,
        final(doc).id == old(doc).id,
        final(doc).meta == old(doc).meta,
{
    let idx = doc.buffer.index() + 1;
    let line_pos = doc.buffer.line_byte(idx);
    if switch_with_new_line(doc, line_pos) {
        let new_pos = crate::movement::shift_down(1, doc.buf());
        doc.buffer.set_pos(new_pos);
    }
}

/// Opens a line above the cursor line; the cursor goes to its start. Where the edits
/// would not fit the text (the rope crate would panic), only the cursor moves.
pub fn switch_line_prev(doc: &mut Document)
    requires
        old(doc).wf(),
        old(doc).buffer@.index <= len_lines(old(doc).buffer@.text),
    ensures
        final(doc).wf(),
        final(doc).buffer@ == line_prev_result(*old(doc)).0,
        pending_edits(final(doc).transaction) == line_prev_result(*old(doc)).1,
        final(doc).history == old(doc).history,
        final(doc).id == old(doc).id,
        final(doc).meta == old(doc).meta,
{
    let line_pos = doc.buffer.line_byte(doc.buffer.index());
    doc.buffer.set_offset(0);
    switch_with_new_line(doc, line_pos);
}

/// When a switch to insert mode can run without panicking.
pub open spec fn switch_ok(b: BufferView, switch: Switch) -> bool {
    match switch {
        Switch::LineEnd => b.index < len_lines(b.text),
        Switch::LineNext => b.index < len_lines(b.text) && b.index < usize::MAX,
        Switch::LinePrev => b.index <= len_lines(b.text),
        _ => true,
    }
}

/// The buffer and pending edits after a switch to insert mode, before the mode changes.
pub open spec fn switch_result(d0: Document, switch: Switch) -> (BufferView, Option<Seq<Edit>>) {
    let b = d0.buffer@;
    match switch {
        Switch::Inplace => (b, pending_edits(d0.transaction)),
        Switch::LineStart => (BufferView { offset: 0, ..b }, pending_edits(d0.transaction)),
        Switch::LineEnd => (BufferView { offset: line_end_offset(b), ..b }, pending_edits(d0.transaction)),
        Switch::LineNext => line_next_result(d0),
        Switch::LinePrev => line_prev_result(d0),
    }
}

/// The document after a switch to insert mode; where the cursor does not lie within the
/// text, it is unchanged.
pub open spec fn switch_post(d0: Document, d1: Document, switch: Switch) -> bool {
    if switch_ok(d0.buffer@, switch) {
        &&& d1.buffer@ == (BufferView { mode: Mode::Insert, ..switch_result(d0, switch).0 })
        &&& pending_edits(d1.transaction) == switch_result(d0, switch).1
        &&& d1.history == d0.history
        &&& d1.id == d0.id
        &&& d1.meta == d0.meta
    } else {
        d1 == d0
    }
}

/// Switches the current document to insert mode, at the cursor, at the start or end of
/// its line, or on a new line below or above. Where the cursor does not lie within the
/// text, nothing changes.
pub fn switch_mode(ws: &mut Workspace, switch: Switch)
    requires
        old(ws).wf(),
    ensures
        final(ws).wf(),
        others_unchanged(*old(ws), *final(ws)),
        switch_post(old(ws).cur_doc(), final(ws).cur_doc(), switch),
{
    let ghost w0 = *ws;
    proof {
        assert(w0.documents@[w0.current as int].wf());
    }
    let doc = ws.cur_mut();
    let idx = doc.buffer.index();
    let lines = doc.buffer.len_lines();
    match switch {
        Switch::LineStart => doc.buffer.set_offset(0),
        Switch::LineEnd => {
            if idx >= lines {
                return;
            }
            switch_line_end(&mut doc.buffer);
        },
        Switch::LineNext => {
            if idx >= lines || idx == usize::MAX {
                return;
            }
            switch_line_next(doc);
        },
        Switch::LinePrev => {
            if idx > lines {
                return;
            }
            switch_line_prev(doc);
        },
        Switch::Inplace => {},
    }
    doc.buffer.set_mode(Mode::Insert);
}

/// Insert mode at the cursor.
pub fn insert_mode_inplace(ws: &mut Workspace)
    requires
        old(ws).wf(),
    ensures
        final(ws).wf(),
        others_unchanged(*old(ws), *final(ws)),
        switch_post(old(ws).cur_doc(), final(ws).cur_doc(), Switch::Inplace),
{
    switch_mode(ws, Switch::Inplace);
}

/// Insert mode at the end of the cursor line.
pub fn insert_mode_line_end(ws: &mut Workspace)
    requires
        old(ws).wf(),
    ensures
        final(ws).wf(),
        others_unchanged(*old(ws), *final(ws)),
        switch_post(old(ws).cur_doc(), final(ws).cur_doc(), Switch::LineEnd),
{
    switch_mode(ws, Switch::LineEnd);
}

/// Insert mode at the start of the cursor line.
pub fn insert_mode_line_start(ws: &mut Workspace)
    requires
        old(ws).wf(),
    ensures
        final(ws).wf(),
        others_unchanged(*old(ws), *final(ws)),
        switch_post(old(ws).cur_doc(), final(ws).cur_doc(), Switch::LineStart),
{
    switch_mode(ws, Switch::LineStart);
}

/// Insert mode on a new line below the cursor line.
pub fn insert_mode_line_next(ws: &mut Workspace)
    requires
        old(ws).wf(),
    ensures
        final(ws).wf(),
        others_unchanged(*old(ws), *final(ws)),
        switch_post(old(ws).cur_doc(), final(ws).cur_doc(), Switch::LineNext),
{
    switch_mode(ws, Switch::LineNext);
}

/// Insert mode on a new line above the cursor line.
pub fn insert_mode_line_prev(ws: &mut Workspace)
    requires
        old(ws).wf(),
    ensures
        final(ws).wf(),
        others_unchanged(*old(ws), *final(ws)),
        switch_post(old(ws).cur_doc(), final(ws).cur_doc(), Switch::LinePrev),
{
    switch_mode(ws, Switch::LinePrev);
}

/// Open-below law: with no pending edits, opening a line below line `i` puts a line
/// break where line `i + 1` started, at the end of line `i`: the lines before `i` stay
/// as they were, line `i` keeps its text (and gains a line break if it was the last),
/// line `i + 1` is new and empty, and the text has one more line; the cursor goes to the
/// start of line `i + 1`. The insertion goes by the byte index of that line start, so the
/// law holds where that byte index is also its char index.
pub proof fn law_line_next_opens_below(d0: Document)
    requires
        d0.transaction is None,
        d0.buffer@.index < len_lines(d0.buffer@.text),
        line_to_byte(d0.buffer@.text, d0.buffer@.index + 1) == line_start(
            d0.buffer@.text,
            d0.buffer@.index + 1,
        ),
        d0.buffer@.text.len() + 1 <= usize::MAX,
    ensures
        ({
            let t = d0.buffer@.text;
            let i = d0.buffer@.index;
            let b1 = line_next_result(d0).0;
            let t1 = b1.text;
            let p = line_start(t, i + 1);
            &&& t1 == t.take(p as int) + seq!['\n'] + t.skip(p as int)
            &&& len_lines(t1) == len_lines(t) + 1
            &&& b1.index == i + 1
            &&& b1.offset == 0
            &&& forall|k: nat| k < i ==> #[trigger] line_chars(t1, k) == line_chars(t, k)
            &&& i + 1 < len_lines(t) ==> line_chars(t1, i) == line_chars(t, i)
                && line_chars(t1, i + 1) == seq!['\n']
            &&& i + 1 == len_lines(t) ==> line_chars(t1, i) == line_chars(t, i).push('\n')
                && line_chars(t1, i + 1).len() == 0
        }),
{
    let t = d0.buffer@.text;
    let i = d0.buffer@.index;
    let p = line_start(t, i + 1);
    lemma_line_start_le_len(t, i + 1);
    let es1 = new_line_edits(pending_or_empty(d0), p);
    lemma_new_line_fit(t.len(), Seq::empty(), p);
    assert(fit_len(t.len(), Seq::<Edit>::empty()) == Some(t.len()));
    let ins = Edit::Insert(seq!['\n'], p);
    assert(es1 =~= seq![Edit::Move, ins, Edit::Move]);
    let t1 = t.take(p as int) + seq!['\n'] + t.skip(p as int);
    assert(apply_edits(t, seq![Edit::Move]) == Some(t)) by {
        assert(seq![Edit::Move].drop_last() =~= Seq::<Edit>::empty());
        assert(seq![Edit::Move].last() == Edit::Move);
        assert(apply_edits(t, Seq::<Edit>::empty()) == Some(t));
    }
    assert(apply_edits(t, seq![Edit::Move, ins]) == Some(t1)) by {
        assert(seq![Edit::Move, ins].drop_last() =~= seq![Edit::Move]);
        assert(seq![Edit::Move, ins].last() == ins);
    }
    assert(apply_edits(t, es1) == Some(t1)) by {
        assert(es1.drop_last() =~= seq![Edit::Move, ins]);
        assert(es1.last() == Edit::Move);
    }
    assert(line_next_result(d0).0.text == t1);
    // Line counts.
    assert(t =~= t.take(p as int) + t.skip(p as int));
    lemma_count_nl_concat(t.take(p as int), t.skip(p as int));
    lemma_count_nl_concat(t.take(p as int) + seq!['\n'], t.skip(p as int));
    lemma_count_nl_concat(t.take(p as int), seq!['\n']);
    assert(count_nl(seq!['\n']) == 1) by {
        assert(seq!['\n'].drop_last() =~= Seq::<char>::empty());
        assert(seq!['\n'].last() == '\n');
        assert(count_nl(Seq::<char>::empty()) == 0);
    }
    assert(count_nl(t1) == count_nl(t) + 1);
    // The text up to `p` is unchanged.
    assert(t1.take(p as int) =~= t.take(p as int));
    assert forall|k: nat| k <= i implies #[trigger] line_start(t1, k) == line_start(t, k) by {
        lemma_line_start_mono_le(t, k, i + 1);
        lemma_line_start_prefix(t, t1, p, k);
    }
    if i + 1 < len_lines(t) {
        lemma_line_start_break(t, i + 1);
        assert(t1[p - 1] == t[p - 1]);
        lemma_line_start_unique(t1, i + 1, p);
        assert(t1.take(p + 1 as int) =~= t.take(p as int) + seq!['\n']);
        lemma_count_nl_concat(t.take(p as int), seq!['\n']);
        lemma_line_start_unique(t1, i + 2, p + 1);
        assert(line_chars(t1, i + 1) =~= seq!['\n']);
        assert(line_start(t1, i) == line_start(t, i));
        lemma_line_start_mono_le(t, i, i + 1);
        assert forall|m: int| line_start(t, i) <= m < p implies t1[m] == t[m] by {
            assert(t1[m] == t1.take(p as int)[m]);
            assert(t[m] == t.take(p as int)[m]);
        }
        assert(line_chars(t1, i) =~= line_chars(t, i));
    } else {
        assert(p == t.len());
        assert(t1 =~= t.push('\n'));
        assert(t1.take(t1.len() as int) =~= t1);
        lemma_line_start_unique(t1, i + 1, t1.len());
        assert(line_chars(t1, i + 1).len() == 0);
        lemma_line_start_le_len(t, i);
        assert(line_chars(t1, i) =~= line_chars(t, i).push('\n'));
    }
    assert forall|k: nat| k < i implies #[trigger] line_chars(t1, k) == line_chars(t, k) by {
        lemma_line_start_mono_le(t, k + 1, i + 1);
        lemma_line_start_mono_le(t, k, k + 1);
        assert(line_start(t1, k + 1) == line_start(t, k + 1));
        assert(line_chars(t1, k) =~= line_chars(t, k));
    }
    // The cursor line.
    assert(line_len_bytes(t1, i + 1) <= 1) by {
        if i + 1 < len_lines(t) {
            assert(line_chars(t1, i + 1) =~= seq!['\n']);
            assert(seq!['\n'].drop_first() =~= Seq::<char>::empty());
            reveal_with_fuel(vstd::utf8::encode_utf8, 2);
            assert(vstd::utf8::encode_scalar('\n' as u32).len() == 1);
        } else {
            assert(line_chars(t1, i + 1) =~= Seq::<char>::empty());
        }
    }
}

/// Open-above law: with no pending edits, opening a line above line `i` puts a line
/// break where line `i` started: the lines before `i` stay as they were, line `i` is new
/// and empty, the old line `i` follows as line `i + 1`, and the text has one more line;
/// the cursor goes to the start of line `i`. The insertion goes by the byte index of that
/// line start, so the law holds where that byte index is also its char index.
pub proof fn law_line_prev_opens_above(d0: Document)
    requires
        d0.transaction is None,
        d0.buffer@.index < len_lines(d0.buffer@.text),
        line_to_byte(d0.buffer@.text, d0.buffer@.index) == line_start(
            d0.buffer@.text,
            d0.buffer@.index,
        ),
        d0.buffer@.text.len() + 1 <= usize::MAX,
    ensures
        ({
            let t = d0.buffer@.text;
            let i = d0.buffer@.index;
            let b1 = line_prev_result(d0).0;
            let t1 = b1.text;
            let p = line_start(t, i);
            &&& t1 == t.take(p as int) + seq!['\n'] + t.skip(p as int)
            &&& len_lines(t1) == len_lines(t) + 1
            &&& b1.index == i
            &&& b1.offset == 0
            &&& forall|k: nat| k < i ==> #[trigger] line_chars(t1, k) == line_chars(t, k)
            &&& line_chars(t1, i) == seq!['\n']
            &&& line_chars(t1, i + 1) == line_chars(t, i)
        }),
{
    let t = d0.buffer@.text;
    let i = d0.buffer@.index;
    let p = line_start(t, i);
    lemma_line_start_le_len(t, i);
    let es1 = new_line_edits(pending_or_empty(d0), p);
    lemma_new_line_fit(t.len(), Seq::empty(), p);
    assert(fit_len(t.len(), Seq::<Edit>::empty()) == Some(t.len()));
    let ins = Edit::Insert(seq!['\n'], p);
    assert(es1 =~= seq![Edit::Move, ins, Edit::Move]);
    let t1 = t.take(p as int) + seq!['\n'] + t.skip(p as int);
    assert(apply_edits(t, seq![Edit::Move]) == Some(t)) by {
        assert(seq![Edit::Move].drop_last() =~= Seq::<Edit>::empty());
        assert(seq![Edit::Move].last() == Edit::Move);
        assert(apply_edits(t, Seq::<Edit>::empty()) == Some(t));
    }
    assert(apply_edits(t, seq![Edit::Move, ins]) == Some(t1)) by {
        assert(seq![Edit::Move, ins].drop_last() =~= seq![Edit::Move]);
        assert(seq![Edit::Move, ins].last() == ins);
    }
    assert(apply_edits(t, es1) == Some(t1)) by {
        assert(es1.drop_last() =~= seq![Edit::Move, ins]);
        assert(es1.last() == Edit::Move);
    }
    assert(line_prev_result(d0).0.text == t1);
    assert(t =~= t.take(p as int) + t.skip(p as int));
    lemma_count_nl_concat(t.take(p as int), t.skip(p as int));
    lemma_count_nl_concat(t.take(p as int) + seq!['\n'], t.skip(p as int));
    lemma_count_nl_concat(t.take(p as int), seq!['\n']);
    assert(count_nl(seq!['\n']) == 1) by {
        assert(seq!['\n'].drop_last() =~= Seq::<char>::empty());
        assert(seq!['\n'].last() == '\n');
        assert(count_nl(Seq::<char>::empty()) == 0);
    }
    assert(count_nl(t1) == count_nl(t) + 1);
    assert(t1.take(p as int) =~= t.take(p as int));
    assert forall|k: nat| k <= i implies #[trigger] line_start(t1, k) == line_start(t, k) by {
        lemma_line_start_mono_le(t, k, i);
        lemma_line_start_prefix(t, t1, p, k);
    }
    // The count of line breaks before the new one.
    if i > 0 {
        lemma_line_start_break(t, i);
    } else {
        assert(t.take(0) =~= Seq::<char>::empty());
    }
    assert(count_nl(t.take(p as int)) == i);
    assert(t1.take(p + 1 as int) =~= t.take(p as int) + seq!['\n']);
    lemma_line_start_unique(t1, i + 1, p + 1);
    assert(line_chars(t1, i) =~= seq!['\n']);
    // The old line `i` follows.
    let q = line_start(t, i + 1);
    crate::text::lemma_line_start_mono(t, i);
    lemma_line_start_le_len(t, i + 1);
    if i + 1 <= count_nl(t) {
        lemma_line_start_break(t, i + 1);
        let mid = t.subrange(p as int, q as int);
        assert(t.take(q as int) =~= t.take(p as int) + mid);
        assert(t1.take(q + 1 as int) =~= t.take(p as int) + seq!['\n'] + mid);
        lemma_count_nl_concat(t.take(p as int), mid);
        lemma_count_nl_concat(t.take(p as int) + seq!['\n'], mid);
        assert(t1[q as int] == t[q - 1]);
        lemma_line_start_unique(t1, i + 2, q + 1);
    } else {
        assert(q == t.len());
    }
    assert(line_chars(t1, i + 1) =~= line_chars(t, i));
    assert forall|k: nat| k < i implies #[trigger] line_chars(t1, k) == line_chars(t, k) by {
        lemma_line_start_mono_le(t, k + 1, i);
        lemma_line_start_mono_le(t, k, k + 1);
        assert(line_start(t1, k + 1) == line_start(t, k + 1));
        assert forall|m: int| line_start(t, k) <= m < line_start(t, k + 1) implies t1[m] == t[m] by {
            assert(t1[m] == t1.take(p as int)[m]);
            assert(t[m] == t.take(p as int)[m]);
        }
        assert(line_chars(t1, k) =~= line_chars(t, k));
    }
}

/// Insert-mode law: each switch to insert mode leaves the document in insert mode with
/// the cursor on its line: in place it keeps the text and the cursor; at the line start
/// the offset is zero; at the line end the cursor stands on the line break of a line
/// that has one, or just past the last char of the last line.
pub proof fn law_switch_to_insert(d0: Document, d1: Document, switch: Switch)
    requires
        switch_post(d0, d1, switch),
        switch_ok(d0.buffer@, switch),
    ensures
        ({
            let b = d0.buffer@;
            let b1 = d1.buffer@;
            let len = line_len_bytes(b.text, b.index);
            &&& b1.mode == Mode::Insert
            &&& (switch is Inplace || switch is LineStart || switch is LineEnd) ==> b1.text == b.text
                && b1.index == b.index
            &&& switch is Inplace ==> b1.offset == b.offset
            &&& switch is LineStart ==> b1.offset == 0
            &&& switch is LineEnd && b.index + 1 < len_lines(b.text) ==> b1.offset + 1 == len
            &&& switch is LineEnd && b.index + 1 == len_lines(b.text) ==> b1.offset == len
        }),
{
    let b = d0.buffer@;
    if b.index + 1 < len_lines(b.text) {
        crate::text::lemma_line_not_last_nonempty(b.text, b.index);
        crate::text::lemma_line_bytes_within(b.text, b.index);
    }
}

} // verus!
