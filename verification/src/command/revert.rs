//! Undo and redo of the current document.
use vstd::prelude::*;
use crate::buffer::{curs_pos_of, BufferView};
use crate::command::modify::others_unchanged;
use crate::document::Document;
use crate::editor::Workspace;
use crate::history::{
    commit_of, history_wf, law_undo_after_commit, lemma_commit_view_top, record_view, redo_commit,
    redo_pos, redo_text, redo_view, undo_commit, undo_pos, undo_text, undo_view,
};
use crate::text::{byte_len, len_lines, lemma_byte_to_line_start, line_to_byte};
use crate::transaction::{apply_edits, first_pos, fit_len, inverse_edits, last_pos, undoable, Edit};

verus! {

/// The cursor after an undo or redo that answered `pos` on the text `t`: at `pos` taken as
/// a byte index, when it lies within the text.
pub open spec fn cursor_after(b: BufferView, t: Seq<char>, pos: Option<nat>) -> BufferView {
    match pos {
        Some(p) => if p <= byte_len(t) {
            let (i, o) = curs_pos_of(t, p);
            BufferView { text: t, index: i, offset: o, ..b }
        } else {
            BufferView { text: t, ..b }
        },
        None => BufferView { text: t, ..b },
    }
}

/// The document after an undo: the last commit reverted, and the cursor where the
/// commit started. Where the inverted edits would not fit the text, nothing changes.
pub open spec fn undo_post(d0: Document, d1: Document) -> bool {
    let h = d0.history@;
    let b = d0.buffer@;
    &&& d1.id == d0.id
    &&& d1.meta == d0.meta
    &&& d1.transaction == d0.transaction
    &&& if h.head > 0 && fit_len(b.text.len(), inverse_edits(undo_commit(h).edits)) is Some {
        &&& d1.history@ == undo_view(h)
        &&& d1.buffer@ == cursor_after(b, undo_text(h, b.text), undo_pos(h))
    } else {
        d1.history@ == h && d1.buffer@ == b
    }
}

/// The document after a redo: the next commit replayed, and the cursor where the commit
/// ended. Where the edits would not fit the text, nothing changes.
pub open spec fn redo_post(d0: Document, d1: Document) -> bool {
    let h = d0.history@;
    let b = d0.buffer@;
    &&& d1.id == d0.id
    &&& d1.meta == d0.meta
    &&& d1.transaction == d0.transaction
    &&& if h.head < h.commits.len() && fit_len(b.text.len(), redo_commit(h).edits) is Some {
        &&& d1.history@ == redo_view(h)
        &&& d1.buffer@ == cursor_after(b, redo_text(h, b.text), redo_pos(h))
    } else {
        d1.history@ == h && d1.buffer@ == b
    }
}

/// Undo law for a document: when the text of `d1` came from replaying the edits `es` on
/// `t`, and `es` were then committed onto the history of `d0`, an undo gives back `t`,
/// and the redo that follows gives back the text and the history of `d1`. The lengths
/// on the way must fit in a `usize`.
pub proof fn law_document_undo_redo(
    d0: Document,
    d1: Document,
    d2: Document,
    d3: Document,
    t: Seq<char>,
    es: Seq<Edit>,
)
    requires
        history_wf(d0.history@),
        commit_of(es) is Some,
        apply_edits(t, es) == Some(d1.buffer@.text),
        undoable(t, es),
        d1.history@ == record_view(d0.history@, es),
        fit_len(d1.buffer@.text.len(), inverse_edits(es)) is Some,
        fit_len(t.len(), es) is Some,
        undo_post(d1, d2),
        redo_post(d2, d3),
    ensures
        d2.buffer@.text == t,
        d3.buffer@.text == d1.buffer@.text,
        d3.history@ == d1.history@,
{
    let h = d0.history@;
    let c = commit_of(es)->0;
    law_undo_after_commit(h, es, t);
    lemma_commit_view_top(h, c);
    let h2 = record_view(h, es);
    assert(undo_commit(h2).edits == es);
    assert(redo_commit(undo_view(h2)) == c);
}

/// Undoes the last commit of the current document and moves the cursor to where it
/// started.
pub fn undo(ws: &mut Workspace)
    requires
        old(ws).wf(),
    ensures
        final(ws).wf(),
        others_unchanged(*old(ws), *final(ws)),
        undo_post(old(ws).cur_doc(), final(ws).cur_doc()),
{
    let ghost w0 = *ws;
    proof {
        assert(w0.documents@[w0.current as int].wf());
    }
    let doc = ws.cur_mut();
    if let Some(pos) = doc.undo() {
        if pos <= doc.buffer.len_bytes() {
            let p = doc.buffer.curs_pos(pos);
            doc.buffer.set_pos(p);
        }
    }
}

/// Redoes the next commit of the current document and moves the cursor to where it
/// ended.
pub fn redo(ws: &mut Workspace)
    requires
        old(ws).wf(),
    ensures
        final(ws).wf(),
        others_unchanged(*old(ws), *final(ws)),
        redo_post(old(ws).cur_doc(), final(ws).cur_doc()),
{
    let ghost w0 = *ws;
    proof {
        assert(w0.documents@[w0.current as int].wf());
    }
    let doc = ws.cur_mut();
    if let Some(pos) = doc.redo() {
        if pos <= doc.buffer.len_bytes() {
            let p = doc.buffer.curs_pos(pos);
            doc.buffer.set_pos(p);
        }
    }
}

/// Undo cursor law: an undo that reverts a commit puts the cursor at the byte that the
/// undo answers, counted in the text after the undo, when that byte lies within it; for
/// a commit recorded from its edits that byte is where its first edit was made. The
/// cursor line exists.
pub proof fn law_undo_cursor(d0: Document, d1: Document)
    requires
        undo_post(d0, d1),
        d0.history@.head > 0,
        fit_len(d0.buffer@.text.len(), inverse_edits(undo_commit(d0.history@).edits)) is Some,
        undo_commit(d0.history@).before <= byte_len(d1.buffer@.text),
    ensures
        undo_pos(d0.history@) == Some(line_to_byte(d1.buffer@.text, d1.buffer@.index) + d1.buffer@.offset),
        commit_of(undo_commit(d0.history@).edits) == Some(undo_commit(d0.history@)) ==> first_pos(
            undo_commit(d0.history@).edits,
        ) == Some(line_to_byte(d1.buffer@.text, d1.buffer@.index) + d1.buffer@.offset),
        d1.buffer@.index < len_lines(d1.buffer@.text),
{
    let t1 = d1.buffer@.text;
    assert(t1 == undo_text(d0.history@, d0.buffer@.text));
    lemma_byte_to_line_start(t1, undo_commit(d0.history@).before);
}

/// Redo cursor law: a redo that replays a commit puts the cursor at the byte that the
/// redo answers, counted in the text after the redo, when that byte lies within it; for
/// a commit recorded from its edits that byte is where its last edit was made. The
/// cursor line exists.
pub proof fn law_redo_cursor(d0: Document, d1: Document)
    requires
        redo_post(d0, d1),
        d0.history@.head < d0.history@.commits.len(),
        fit_len(d0.buffer@.text.len(), redo_commit(d0.history@).edits) is Some,
        redo_commit(d0.history@).after <= byte_len(d1.buffer@.text),
    ensures
        redo_pos(d0.history@) == Some(line_to_byte(d1.buffer@.text, d1.buffer@.index) + d1.buffer@.offset),
        commit_of(redo_commit(d0.history@).edits) == Some(redo_commit(d0.history@)) ==> last_pos(
            redo_commit(d0.history@).edits,
        ) == Some(line_to_byte(d1.buffer@.text, d1.buffer@.index) + d1.buffer@.offset),
        d1.buffer@.index < len_lines(d1.buffer@.text),
{
    let t1 = d1.buffer@.text;
    assert(t1 == redo_text(d0.history@, d0.buffer@.text));
    lemma_byte_to_line_start(t1, redo_commit(d0.history@).after);
}

} // verus!
