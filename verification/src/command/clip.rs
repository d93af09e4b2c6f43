//! Copying the selection to a clipboard and pasting from one.
use vstd::prelude::*;
use crate::buffer::{byte_pos_of, BufferView, Mode};
use crate::chars::chars_to_string;
use crate::command::modify::{
    check_pos, check_sel, del_sel_edits, delete_selection, pending_or_empty, pos_ok,
    sel_slice_ok, selected_chars, selected_text,
};
use crate::document::Document;
use crate::editor::Workspace;
use crate::history::record_view;
use crate::movement::min;
use crate::transaction::{apply_edits, fit_len, lemma_fit_len_applies, push_insert, push_move, Edit, TransactionResult};

verus! {

/// Which clipboard.
pub enum ClipboardType {
    Local,
    Global,
}

/// The workspace after copying the selection of the current document, if there is one,
/// to a clipboard; where slicing the selection would panic, nothing changes.
pub open spec fn copy_post(w0: Workspace, w1: Workspace, kind: ClipboardType) -> bool {
    let b = w0.cur_doc().buffer@;
    &&& w1.documents == w0.documents
    &&& w1.current == w0.current
    &&& w1.search_registry == w0.search_registry
    &&& w1.search_buffer == w0.search_buffer
    &&& w1.ids == w0.ids
    &&& match (sel_slice_ok(b), selected_chars(b)) {
        (true, Some((s, _))) => match kind {
            ClipboardType::Local => w1.clipboard.local@ == s && w1.clipboard.global@
                == w0.clipboard.global@ && w1.clipboard.outgoing == w0.clipboard.outgoing,
            ClipboardType::Global => {
                &&& w1.clipboard.local@ == w0.clipboard.local@
                &&& w1.clipboard.global@ == s
                &&& w1.clipboard.outgoing matches Some(o) && o@ == s
            },
        },
        _ => w1.clipboard == w0.clipboard,
    }
}

/// Copies the selection of the current document to a clipboard.
pub fn copy_clipboard_impl(ws: &mut Workspace, kind: ClipboardType)
    requires
        old(ws).wf(),
    ensures
        final(ws).wf(),
        copy_post(*old(ws), *final(ws), kind),
{
    let buf = ws.cur().buf();
    if !check_sel(buf) {
        return;
    }
    if let Some(chars) = selected_text(buf) {
        let text = chars_to_string(chars.as_slice());
        let clipboard = ws.clipboard();
        match kind {
            ClipboardType::Local => clipboard.set_local(text),
            ClipboardType::Global => clipboard.set_global(text),
        }
    }
}

/// Copies the selection to the local clipboard.
pub fn copy_local(ws: &mut Workspace)
    requires
        old(ws).wf(),
    ensures
        final(ws).wf(),
        copy_post(*old(ws), *final(ws), ClipboardType::Local),
{
    copy_clipboard_impl(ws, ClipboardType::Local);
}

/// Copies the selection to the system clipboard.
pub fn copy_global(ws: &mut Workspace)
    requires
        old(ws).wf(),
    ensures
        final(ws).wf(),
        copy_post(*old(ws), *final(ws), ClipboardType::Global),
{
    copy_clipboard_impl(ws, ClipboardType::Global);
}

/// The edits after pasting `text`: in visual mode with a selection, the selection is
/// deleted and `text` put at the cursor; else `text` goes after the cursor char, after a
/// move.
pub open spec fn paste_edits(d0: Document, text: Seq<char>) -> Seq<Edit> {
    let b = d0.buffer@;
    let pos = byte_pos_of(b);
    let es0 = pending_or_empty(d0);
    match selected_chars(b) {
        Some((s, start)) if b.mode == Mode::Visual => push_insert(del_sel_edits(es0, s, start), pos, text),
        _ => push_insert(push_move(es0), min(pos + 1, b.text.len()), text),
    }
}

/// The document after pasting `text`: the pending transaction with the paste is replayed
/// on the text and committed. An empty text pastes nothing; where the edits would not fit
/// the text (the rope crate would panic), the pending transaction is dropped and the text
/// kept; where the cursor or the selection does not lie within the text, nothing changes.
pub open spec fn paste_post(d0: Document, d1: Document, text: Seq<char>) -> bool {
    let b = d0.buffer@;
    let es1 = paste_edits(d0, text);
    if text.len() == 0 || !pos_ok(b) || !(b.mode == Mode::Visual ==> sel_slice_ok(b)) {
        d1 == d0
    } else {
        &&& d1.id == d0.id
        &&& d1.meta == d0.meta
        &&& d1.transaction is None
        &&& if fit_len(b.text.len(), es1) is Some {
            &&& d1.buffer@ == (BufferView { text: apply_edits(b.text, es1)->0, ..b })
            &&& d1.history@ == record_view(d0.history@, es1)
        } else {
            d1.buffer == d0.buffer && d1.history == d0.history
        }
    }
}

/// Pastes a clipboard into the current document.
pub fn paste_clipboard_impl(ws: &mut Workspace, kind: ClipboardType)
    requires
        old(ws).wf(),
    ensures
        final(ws).wf(),
        crate::command::modify::others_unchanged(*old(ws), *final(ws)),
        paste_post(
            old(ws).cur_doc(),
            final(ws).cur_doc(),
            match kind {
                ClipboardType::Local => old(ws).clipboard.local@,
                ClipboardType::Global => old(ws).clipboard.global@,
            },
        ),
{
    let text = match kind {
        ClipboardType::Local => ws.clipboard.get_local(),
        ClipboardType::Global => ws.clipboard.get_global(),
    };
    if text.as_str().is_empty() {
        return;
    }
    let ghost w0 = *ws;
    proof {
        assert(w0.documents@[w0.current as int].wf());
    }
    let doc = ws.cur_mut();
    let ghost d0 = *doc;
    if !check_pos(doc.buf()) {
        return;
    }
    let visual = doc.buffer.is_visual();
    if visual && !check_sel(doc.buf()) {
        return;
    }
    let mut tx = doc.take_transaction();
    let pos = doc.buffer.byte_pos();
    let len = doc.buffer.len_chars();
    if visual && delete_selection(doc.buf(), &mut tx) {
        tx.insert_str(pos, text.as_str());
    } else {
        let shift = if pos < len {
            pos + 1
        } else {
            len
        };
        tx.shift();
        tx.insert_str(shift, text.as_str());
    }
    if !tx.fits(len) {
        doc.end_transaction(tx, TransactionResult::Abort);
        return;
    }
    proof {
        lemma_fit_len_applies(d0.buffer@.text, tx@);
    }
    tx.apply(doc.buffer.text_mut());
    doc.end_transaction(tx, TransactionResult::Commit);
}

/// Pastes the local clipboard.
pub fn paste_local(ws: &mut Workspace)
    requires
        old(ws).wf(),
    ensures
        final(ws).wf(),
        crate::command::modify::others_unchanged(*old(ws), *final(ws)),
        paste_post(old(ws).cur_doc(), final(ws).cur_doc(), old(ws).clipboard.local@),
{
    paste_clipboard_impl(ws, ClipboardType::Local);
}

/// Pastes the system clipboard, as last read.
pub fn paste_global(ws: &mut Workspace)
    requires
        old(ws).wf(),
    ensures
        final(ws).wf(),
        crate::command::modify::others_unchanged(*old(ws), *final(ws)),
        paste_post(old(ws).cur_doc(), final(ws).cur_doc(), old(ws).clipboard.global@),
{
    paste_clipboard_impl(ws, ClipboardType::Global);
}

} // verus!
