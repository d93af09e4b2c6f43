//! Commands that change the text: typing a char, breaking a line, deleting.
use vstd::prelude::*;
use crate::buffer::{byte_pos_of, Buffer, BufferView};
use crate::document::{pending_edits, Document};
use crate::editor::Workspace;
use crate::text::{len_lines, line_to_byte};
use crate::command::switch::visual_to_normal_impl;
use crate::history::record_view;
use crate::rope::rope_text;
use crate::selection::slice_end;
use crate::text::reverse;
use crate::transaction::{
    apply_edits, fit_len, lemma_apply_single, lemma_fit_len_applies, lemma_merge_single,
    merge_edits, push_delete, push_move, Edit, Transaction, TransactionResult,
};

verus! {

/// The edits of the pending transaction, or none.
pub open spec fn pending_or_empty(d: Document) -> Seq<Edit> {
    match d.transaction {
        Some(tx) => tx@,
        None => Seq::empty(),
    }
}

/// Only the current document may differ, and it stays in place.
pub open spec fn others_unchanged(a: Workspace, b: Workspace) -> bool {
    &&& b.current == a.current
    &&& b.documents@.len() == a.documents@.len()
    &&& forall|i: int| 0 <= i < a.documents@.len() && i != a.current ==> b.documents@[i]
        == a.documents@[i]
    &&& b.clipboard == a.clipboard
    &&& b.search_registry == a.search_registry
    &&& b.search_buffer == a.search_buffer
    &&& b.ids == a.ids
}

/// The byte index of the cursor can be computed and used as a char index for an
/// insertion.
pub open spec fn insert_ok(b: BufferView) -> bool {
    &&& b.index <= len_lines(b.text)
    &&& byte_pos_of(b) <= usize::MAX
    &&& byte_pos_of(b) <= b.text.len()
    &&& b.offset < usize::MAX
    &&& b.index < usize::MAX
}

/// `t` with `c` put before index `p`.
pub open spec fn insert_at(t: Seq<char>, p: nat, c: char) -> Seq<char> {
    t.take(p as int) + seq![c] + t.skip(p as int)
}

/// After typing `ch`: inserted at the cursor, the cursor one byte right, the insertion
/// recorded in the pending transaction. Where the cursor does not lie within the text,
/// nothing changes.
pub open spec fn insert_char_post(d0: Document, d1: Document, ch: char) -> bool {
    let b = d0.buffer@;
    let pos = byte_pos_of(b);
    if insert_ok(b) {
        &&& d1.buffer@ == (BufferView { text: insert_at(b.text, pos, ch), offset: b.offset + 1, ..b })
        &&& d1.history == d0.history
        &&& d1.id == d0.id
        &&& d1.meta == d0.meta
        &&& pending_edits(d1.transaction) == Some(
            merge_edits(pending_or_empty(d0), seq![Edit::Insert(seq![ch], pos)]),
        )
    } else {
        d1 == d0
    }
}

/// Whether `insert_ok` holds, computed.
pub(crate) fn check_insert(buf: &Buffer) -> (r: bool)
    ensures
        r == insert_ok(buf@),
{
    let idx = buf.index();
    if idx > buf.len_lines() {
        return false;
    }
    let start = buf.line_byte(idx);
    let ofs = buf.offset();
    if ofs > usize::MAX - start {
        return false;
    }
    let pos = ofs + start;
    pos <= buf.len_chars() && ofs < usize::MAX && idx < usize::MAX
}

/// Types `ch` at the cursor of the current document.
pub fn insert_char(ws: &mut Workspace, ch: char)
    requires
        old(ws).wf(),
    ensures
        final(ws).wf(),
        others_unchanged(*old(ws), *final(ws)),
        insert_char_post(old(ws).cur_doc(), final(ws).cur_doc(), ch),
{
    let ghost w0 = *ws;
    proof {
        assert(w0.documents@[w0.current as int].wf());
    }
    let doc = ws.cur_mut();
    let ghost d0 = *doc;
    if !check_insert(doc.buf()) {
        return;
    }
    let mut insert_tx = doc.take_transaction();
    let pos = doc.buffer.byte_pos();
    let mut tx = Transaction::new();
    tx.insert_char(pos, ch);
    proof {
        assert(tx@ =~= seq![Edit::Insert(seq![ch], pos as nat)]);
        lemma_apply_single(d0.buffer@.text, Edit::Insert(seq![ch], pos as nat));
        lemma_merge_single(pending_or_empty(d0), Edit::Insert(seq![ch], pos as nat));
    }
    tx.apply(doc.buffer.text_mut());
    insert_tx.merge(tx);
    let ofs = doc.buffer.offset() + 1;
    doc.buffer.set_offset(ofs);
    doc.end_transaction(insert_tx, TransactionResult::Keep);
    proof {
        assert(doc.buffer@ =~~= (BufferView { text: insert_at(d0.buffer@.text, pos as nat, ch), offset: d0.buffer@.offset + 1, ..d0.buffer@ }));
    }
}

/// The cursor line exists and the byte index of the cursor fits in a `usize`.
pub open spec fn pos_ok(b: BufferView) -> bool {
    &&& b.index < len_lines(b.text)
    &&& byte_pos_of(b) <= usize::MAX
}

/// Whether `pos_ok` holds, computed.
pub(crate) fn check_pos(buf: &Buffer) -> (r: bool)
    ensures
        r == pos_ok(buf@),
{
    let idx = buf.index();
    if idx >= buf.len_lines() {
        return false;
    }
    let start = buf.line_byte(idx);
    buf.offset() <= usize::MAX - start
}

/// After breaking the line: a line break inserted at the cursor, and the cursor at the
/// start of the line below. Where the cursor does not lie within the text, nothing
/// changes.
pub open spec fn new_line_post(d0: Document, d1: Document) -> bool {
    let b = d0.buffer@;
    let pos = byte_pos_of(b);
    let t1 = insert_at(b.text, pos, '\n');
    if insert_ok(b) {
        &&& d1.buffer@ == (BufferView {
            text: t1,
            index: crate::movement::min(b.index + 1, (len_lines(t1) - 1) as nat),
            offset: 0,
            ..b
        })
        &&& d1.history == d0.history
        &&& d1.id == d0.id
        &&& d1.meta == d0.meta
        &&& pending_edits(d1.transaction) == Some(
            merge_edits(pending_or_empty(d0), seq![Edit::Insert(seq!['\n'], pos)]),
        )
    } else {
        d1 == d0
    }
}

/// Breaks the line at the cursor of the current document.
pub fn new_line(ws: &mut Workspace)
    requires
        old(ws).wf(),
    ensures
        final(ws).wf(),
        others_unchanged(*old(ws), *final(ws)),
        new_line_post(old(ws).cur_doc(), final(ws).cur_doc()),
{
    let ghost w0 = *ws;
    proof {
        assert(w0.documents@[w0.current as int].wf());
    }
    let doc = ws.cur_mut();
    let ghost d0 = *doc;
    if !check_insert(doc.buf()) {
        return;
    }
    let mut insert_tx = doc.take_transaction();
    let pos = doc.buffer.byte_pos();
    let mut tx = Transaction::new();
    tx.insert_char(pos, '\n');
    proof {
        assert(tx@ =~= seq![Edit::Insert(seq!['\n'], pos as nat)]);
        lemma_apply_single(d0.buffer@.text, Edit::Insert(seq!['\n'], pos as nat));
        lemma_merge_single(pending_or_empty(d0), Edit::Insert(seq!['\n'], pos as nat));
    }
    tx.apply(doc.buffer.text_mut());
    insert_tx.merge(tx);
    let new_pos = crate::movement::shift_down(1, doc.buf());
    doc.buffer.set_pos(new_pos);
    doc.buffer.set_offset(0);
    doc.end_transaction(insert_tx, TransactionResult::Keep);
}

/// After a backspace: the char before the cursor taken out and the cursor moved left on
/// the new text, the deletion recorded in the pending transaction; at the start of the
/// text only the pending transaction is opened. Where the cursor does not lie within the
/// text, nothing changes.
pub open spec fn backspace_post(d0: Document, d1: Document) -> bool {
    let b = d0.buffer@;
    let pos = byte_pos_of(b);
    if pos_ok(b) && pos <= b.text.len() {
        if pos > 0 {
            let p = (pos - 1) as nat;
            let t1 = b.text.take(p as int) + b.text.skip(pos as int);
            let b1 = BufferView { text: t1, ..b };
            let (i, o) = crate::movement::shift_left_spec(b1);
            &&& d1.buffer@ == (BufferView { index: i, offset: o, ..b1 })
            &&& d1.history == d0.history
            &&& d1.id == d0.id
            &&& d1.meta == d0.meta
            &&& pending_edits(d1.transaction) == Some(
                merge_edits(pending_or_empty(d0), seq![Edit::Delete(seq![b.text[p as int]], p)]),
            )
        } else {
            &&& d1.buffer == d0.buffer
            &&& d1.history == d0.history
            &&& d1.id == d0.id
            &&& d1.meta == d0.meta
            &&& pending_edits(d1.transaction) == Some(pending_or_empty(d0))
        }
    } else {
        d1 == d0
    }
}

/// Deletes the char before the cursor of the current document.
pub fn delete_backspace(ws: &mut Workspace)
    requires
        old(ws).wf(),
    ensures
        final(ws).wf(),
        others_unchanged(*old(ws), *final(ws)),
        backspace_post(old(ws).cur_doc(), final(ws).cur_doc()),
{
    let ghost w0 = *ws;
    proof {
        assert(w0.documents@[w0.current as int].wf());
    }
    let doc = ws.cur_mut();
    let ghost d0 = *doc;
    if !check_pos(doc.buf()) {
        return;
    }
    let pos = doc.buffer.byte_pos();
    if pos > doc.buffer.len_chars() {
        return;
    }
    let mut delete_tx = doc.take_transaction();
    if pos > 0 {
        let char_pos = pos - 1;
        let mut tx = Transaction::new();
        let ch = doc.buffer.char(char_pos);
        tx.delete_char(char_pos, ch);
        proof {
            let e = Edit::Delete(seq![ch], char_pos as nat);
            assert(tx@ =~= seq![e]);
            lemma_apply_single(d0.buffer@.text, e);
            lemma_merge_single(pending_or_empty(d0), e);
            crate::text::lemma_count_nl_remove_one(d0.buffer@.text, char_pos as int);
        }
        tx.apply(doc.buffer.text_mut());
        proof {
            assert(doc.buffer@.text =~= d0.buffer@.text.take(char_pos as int) + d0.buffer@.text.skip(pos as int));
        }
        delete_tx.merge(tx);
        let new_pos = crate::movement::shift_left(doc.buf());
        doc.buffer.set_pos(new_pos);
    }
    doc.end_transaction(delete_tx, TransactionResult::Keep);
}

/// The selection, if any, can be sliced out of the text without the rope crate
/// panicking.
pub open spec fn sel_slice_ok(b: BufferView) -> bool {
    match b.selection {
        Some(s) => b.text.len() > 0 && slice_end(s.end_spec(), b.text.len()) < b.text.len(),
        None => true,
    }
}

/// The selected chars and the first selected index, if there is a selection.
pub open spec fn selected_chars(b: BufferView) -> Option<(Seq<char>, nat)> {
    match b.selection {
        Some(s) => Some(
            (
                b.text.subrange(s.start_spec() as int, slice_end(s.end_spec(), b.text.len()) + 1),
                s.start_spec(),
            ),
        ),
        None => None,
    }
}

/// Whether `sel_slice_ok` holds, computed.
pub(crate) fn check_sel(buf: &Buffer) -> (r: bool)
    ensures
        r == sel_slice_ok(buf@),
{
    match buf.selection() {
        Some(s) => {
            let len = buf.len_chars();
            if len == 0 {
                return false;
            }
            let end = s.end();
            let e = if end == len {
                end - 1
            } else {
                end
            };
            e < len
        },
        None => true,
    }
}

/// The selected chars of the buffer, if there is a selection.
pub fn selected_text(buf: &Buffer) -> (r: Option<Vec<char>>)
    requires
        sel_slice_ok(buf@),
    ensures
        match (r, selected_chars(buf@)) {
            (Some(v), Some((s, _))) => v@ == s,
            (None, None) => true,
            _ => false,
        },
{
    match buf.selection() {
        Some(s) => Some(s.slice(buf.text())),
        None => None,
    }
}

/// The edits after a deletion of the selected chars `s`, which start at `start`: a move,
/// then the deletion.
pub open spec fn del_sel_edits(es: Seq<Edit>, s: Seq<char>, start: nat) -> Seq<Edit> {
    if s.len() == 0 {
        push_move(es)
    } else {
        push_delete(push_move(es), start, reverse(s))
    }
}

/// Records the deletion of the selection in `tx`, after a move, and answers whether
/// there was a selection.
pub fn delete_selection(buf: &Buffer, tx: &mut Transaction) -> (r: bool)
    requires
        sel_slice_ok(buf@),
    ensures
        r == selected_chars(buf@) is Some,
        match selected_chars(buf@) {
            Some((s, start)) => final(tx)@ == del_sel_edits(old(tx)@, s, start),
            None => final(tx)@ == old(tx)@,
        },
{
    let selected = match selected_text(buf) {
        Some(v) => v,
        None => return false,
    };
    let start = match buf.selection() {
        Some(s) => s.start(),
        None => return false,
    };
    let n = selected.len();
    // The selection lies within the text, whose length fits in a `usize`.
    let text_len = buf.len_chars();
    assert(start + n <= text_len);
    tx.shift();
    tx.delete_backwards(start + n, selected.as_slice());
    true
}

/// After a delete: the selection, if any, is deleted and visual mode left, else the
/// char under the cursor is deleted, and the pending transaction with the deletion is
/// committed; with nothing to delete the pending transaction is dropped. Where the
/// edits would not fit the text (the rope crate would panic), the pending transaction
/// is dropped and the text kept; where the cursor or the selection does not lie within
/// the text, nothing changes.
pub open spec fn delete_post(d0: Document, d1: Document) -> bool {
    let b = d0.buffer@;
    let t = b.text;
    let es0 = pending_or_empty(d0);
    let h = d0.history@;
    let pos = byte_pos_of(b);
    if !(pos_ok(b) && sel_slice_ok(b)) {
        d1 == d0
    } else {
        &&& d1.id == d0.id
        &&& d1.meta == d0.meta
        &&& d1.transaction is None
        &&& match selected_chars(b) {
            Some((s, start)) => {
                let es1 = del_sel_edits(es0, s, start);
                if fit_len(t.len(), es1) is Some {
                    &&& d1.buffer@ == (BufferView {
                        text: apply_edits(t, es1)->0,
                        selection: None,
                        mode: crate::buffer::Mode::Normal,
                        ..b
                    })
                    &&& d1.history@ == record_view(h, es1)
                } else {
                    d1.buffer == d0.buffer && d1.history == d0.history
                }
            },
            None => if pos < t.len() {
                let es1 = push_delete(es0, pos, seq![t[pos as int]]);
                if fit_len(t.len(), es1) is Some {
                    &&& d1.buffer@ == (BufferView { text: apply_edits(t, es1)->0, ..b })
                    &&& d1.history@ == record_view(h, es1)
                } else {
                    d1.buffer == d0.buffer && d1.history == d0.history
                }
            } else {
                d1.buffer == d0.buffer && d1.history == d0.history
            },
        }
    }
}

/// Deletes the selection, or the char under the cursor, of the current document.
pub fn delete(ws: &mut Workspace)
    requires
        old(ws).wf(),
    ensures
        final(ws).wf(),
        others_unchanged(*old(ws), *final(ws)),
        delete_post(old(ws).cur_doc(), final(ws).cur_doc()),
{
    let ghost w0 = *ws;
    proof {
        assert(w0.documents@[w0.current as int].wf());
    }
    let doc = ws.cur_mut();
    let ghost d0 = *doc;
    if !check_pos(doc.buf()) || !check_sel(doc.buf()) {
        return;
    }
    let mut tx = doc.take_transaction();
    let pos = doc.buffer.byte_pos();
    let len = doc.buffer.len_chars();
    if delete_selection(doc.buf(), &mut tx) {
        if !tx.fits(len) {
            doc.end_transaction(tx, TransactionResult::Abort);
            return;
        }
        proof {
            lemma_fit_len_applies(d0.buffer@.text, tx@);
        }
        tx.apply(doc.buffer.text_mut());
        visual_to_normal_impl(&mut doc.buffer);
        doc.end_transaction(tx, TransactionResult::Commit);
        return;
    }
    if pos < len {
        let ch = doc.buffer.char(pos);
        tx.delete_char(pos, ch);
        if !tx.fits(len) {
            doc.end_transaction(tx, TransactionResult::Abort);
            return;
        }
        proof {
            lemma_fit_len_applies(d0.buffer@.text, tx@);
        }
        tx.apply(doc.buffer.text_mut());
        doc.end_transaction(tx, TransactionResult::Commit);
        return;
    }
    doc.end_transaction(tx, TransactionResult::Abort);
}

/// Typing law: typing `ch` where the cursor lies within the text puts `ch` at the
/// cursor's byte index, taken as a char index, and shifts the chars from there on by
/// one; the cursor stays on its line one byte further right.
pub proof fn law_insert_char(d0: Document, d1: Document, ch: char)
    requires
        insert_char_post(d0, d1, ch),
        insert_ok(d0.buffer@),
    ensures
        ({
            let t = d0.buffer@.text;
            let t1 = d1.buffer@.text;
            let pos = line_to_byte(t, d0.buffer@.index) + d0.buffer@.offset;
            &&& t1.len() == t.len() + 1
            &&& t1[pos as int] == ch
            &&& forall|k: int| 0 <= k < pos ==> #[trigger] t1[k] == t[k]
            &&& forall|k: int| pos <= k < t.len() ==> #[trigger] t1[k + 1] == t[k]
            &&& d1.buffer@.index == d0.buffer@.index
            &&& d1.buffer@.offset == d0.buffer@.offset + 1
        }),
{
    let t = d0.buffer@.text;
    let pos = byte_pos_of(d0.buffer@);
    let t1 = d1.buffer@.text;
    assert forall|k: int| pos <= k < t.len() implies #[trigger] t1[k + 1] == t[k] by {
        assert(t1[k + 1] == t.skip(pos as int)[k - pos]);
    }
}

/// Line-break law: breaking the line where the cursor lies within the text puts a line
/// break at the cursor's byte index, taken as a char index; the text has one more line,
/// and the cursor goes to the start of the next line.
pub proof fn law_new_line(d0: Document, d1: Document)
    requires
        new_line_post(d0, d1),
        insert_ok(d0.buffer@),
    ensures
        ({
            let t = d0.buffer@.text;
            let t1 = d1.buffer@.text;
            let pos = line_to_byte(t, d0.buffer@.index) + d0.buffer@.offset;
            &&& t1 == t.take(pos as int) + seq!['\n'] + t.skip(pos as int)
            &&& len_lines(t1) == len_lines(t) + 1
            &&& d0.buffer@.index < len_lines(t) ==> d1.buffer@.index == d0.buffer@.index + 1
            &&& d1.buffer@.offset == 0
        }),
{
    let t = d0.buffer@.text;
    let pos = byte_pos_of(d0.buffer@);
    assert(t =~= t.take(pos as int) + t.skip(pos as int));
    crate::text::lemma_count_nl_concat(t.take(pos as int), t.skip(pos as int));
    crate::text::lemma_count_nl_concat(t.take(pos as int) + seq!['\n'], t.skip(pos as int));
    crate::text::lemma_count_nl_concat(t.take(pos as int), seq!['\n']);
    assert(crate::text::count_nl(seq!['\n']) == 1) by {
        assert(seq!['\n'].drop_last() =~= Seq::<char>::empty());
        assert(seq!['\n'].last() == '\n');
        assert(crate::text::count_nl(Seq::<char>::empty()) == 0);
    }
}

/// Backspace law: where the cursor lies within the text and is not at its start, a
/// backspace takes out the char just before the cursor's byte index, taken as a char
/// index; a cursor inside its line moves one byte left on the same line.
pub proof fn law_backspace(d0: Document, d1: Document)
    requires
        backspace_post(d0, d1),
        pos_ok(d0.buffer@),
        0 < byte_pos_of(d0.buffer@) <= d0.buffer@.text.len(),
    ensures
        ({
            let t = d0.buffer@.text;
            let t1 = d1.buffer@.text;
            let pos = line_to_byte(t, d0.buffer@.index) + d0.buffer@.offset;
            &&& t1.len() + 1 == t.len()
            &&& forall|k: int| 0 <= k < pos - 1 ==> #[trigger] t1[k] == t[k]
            &&& forall|k: int| pos <= k < t.len() ==> #[trigger] t1[k - 1] == t[k]
            &&& d0.buffer@.offset > 0 ==> d1.buffer@.index == d0.buffer@.index
                && d1.buffer@.offset + 1 == d0.buffer@.offset
        }),
{
    let t = d0.buffer@.text;
    let pos = byte_pos_of(d0.buffer@);
    let t1 = d1.buffer@.text;
    assert forall|k: int| pos <= k < t.len() implies #[trigger] t1[k - 1] == t[k] by {
        assert(t1[k - 1] == t.skip(pos as int)[k - pos]);
    }
}

} // verus!
