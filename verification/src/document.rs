//! A document: a buffer, its undo history and the transaction being recorded.
use vstd::prelude::*;
use crate::buffer::{Buffer, BufferView};
use crate::history::{
    can_redo_on, can_undo_on, record_view, redo_commit, redo_pos, redo_text, redo_view,
    undo_commit, undo_pos, undo_text, undo_view, History, HistoryView,
};
use crate::rope::rope_text;
use crate::transaction::{fit_len, inverse_edits, lemma_fit_len_applies, Edit, Transaction, TransactionResult};

verus! {

/// Identifies a document; ids are handed out by an [`IdCounter`] from one upwards.
#[derive(Debug, Clone, Copy, PartialEq, Eq, Structural, Hash, PartialOrd, Ord)]
pub struct DocumentId(pub usize);

/// Hands out document ids, one after the other.
pub struct IdCounter {
    pub next: usize,
}

impl IdCounter {
    /// A counter whose first id is one.
    pub fn new() -> (c: Self)
        ensures
            c.next == 1,
    {
        IdCounter { next: 1 }
    }
}

impl DocumentId {
    /// The largest id.
    pub fn max() -> (id: Self)
        ensures
            id.0 == usize::MAX,
    {
        DocumentId(usize::MAX)
    }

    /// The next id of `ids`; the counter wraps after the largest id, and an id of zero
    /// is refused, as the counter overflowed.
    pub fn next(ids: &mut IdCounter) -> (id: Self)
        requires
            old(ids).next != 0,
        ensures
            id.0 == old(ids).next,
            final(ids).next == if old(ids).next == usize::MAX {
                0
            } else {
                (old(ids).next + 1) as usize
            },
    {
        let id = ids.next;
        ids.next = if id == usize::MAX {
            0
        } else {
            id + 1
        };
        DocumentId(id)
    }
}

/// Where a document comes from.
#[derive(Debug)]
pub struct FileMeta {
    pub path: Option<String>,
    pub readonly: bool,
}

impl Default for FileMeta {
    /// No path, writable.
    fn default() -> (m: Self)
        ensures
            m.path is None,
            !m.readonly,
    {
        FileMeta { path: None, readonly: false }
    }
}

/// A buffer, its history, and the transaction being recorded.
pub struct Document {
    pub id: DocumentId,
    pub meta: FileMeta,
    pub buffer: Buffer,
    pub history: History,
    pub transaction: Option<Transaction>,
}

/// The edits of the pending transaction, if any.
pub open spec fn pending_edits(t: Option<Transaction>) -> Option<Seq<Edit>> {
    match t {
        Some(tx) => Some(tx@),
        None => None,
    }
}

impl Document {
    /// The history stays well formed.
    pub open spec fn wf(&self) -> bool {
        self.history.wf()
    }

    /// An empty document with id `id`.
    pub fn new(id: DocumentId) -> (d: Self)
        ensures
            d.wf(),
            d.id == id,
            d.buffer@ == (BufferView {
                text: Seq::empty(),
                index: 0,
                offset: 0,
                vscroll: 0,
                mode: crate::buffer::Mode::Normal,
                selection: None,
            }),
            d.history@ == (HistoryView {
                head: 0,
                max_items: History::DEFAULT_CAPACITY as nat,
                commits: Seq::empty(),
            }),
            d.transaction is None,
    {
        Document {
            id,
            meta: FileMeta::default(),
            buffer: Buffer::default(),
            history: History::default(),
            transaction: None,
        }
    }

    /// A document with id `id` holding `text` read from `meta`.
    pub fn from_text(id: DocumentId, text: ropey::Rope, meta: FileMeta) -> (d: Self)
        ensures
            d.wf(),
            d.id == id,
            d.buffer@.text == rope_text(text),
            d.buffer@.index == 0 && d.buffer@.offset == 0,
            d.history@.head == 0 && d.history@.commits.len() == 0,
            d.transaction is None,
    {
        let mut d = Document::new(id);
        d.buffer.set_text(text);
        d.meta = meta;
        d
    }

    /// The id.
    pub fn id(&self) -> (id: DocumentId)
        ensures
            id == self.id,
    {
        self.id
    }

    /// Where the document comes from.
    pub fn meta(&self) -> (m: &FileMeta)
        ensures
            *m == self.meta,
    {
        &self.meta
    }

    /// The buffer.
    pub fn buf(&self) -> (b: &Buffer)
        ensures
            *b == self.buffer,
    {
        &self.buffer
    }

    /// The buffer, for changes.
    pub fn buf_mut(&mut self) -> (b: &mut Buffer)
        ensures
            *b == old(self).buffer,
            *final(self) == (Document { buffer: *final(b), ..*old(self) }),
    {
        &mut self.buffer
    }

    /// The pending transaction, taken out; a new one when there is none.
    pub fn take_transaction(&mut self) -> (tx: Transaction)
        ensures
            *final(self) == (Document { transaction: None, ..*old(self) }),
            tx@ == match old(self).transaction {
                Some(t) => t@,
                None => Seq::<Edit>::empty(),
            },
    {
        match self.transaction.take() {
            Some(tx) => tx,
            None => Transaction::new(),
        }
    }

    /// Ends a step of recording: the transaction goes into the history, stays pending,
    /// or is dropped.
    pub fn end_transaction(&mut self, tx: Transaction, result: TransactionResult)
        requires
            old(self).wf(),
        ensures
            final(self).wf(),
            final(self).id == old(self).id,
            final(self).meta == old(self).meta,
            final(self).buffer == old(self).buffer,
            final(self).history@ == match result {
                TransactionResult::Commit => record_view(old(self).history@, tx@),
                _ => old(self).history@,
            },
            !(result is Commit) ==> final(self).history == old(self).history,
            pending_edits(final(self).transaction) == match result {
                TransactionResult::Keep => Some(tx@),
                _ => pending_edits(old(self).transaction),
            },
    {
        match result {
            TransactionResult::Commit => self.history.commit(tx),
            TransactionResult::Keep => self.transaction = Some(tx),
            TransactionResult::Abort => {},
        }
    }

    /// Commits the pending transaction, if any.
    pub fn commit(&mut self)
        requires
            old(self).wf(),
        ensures
            final(self).wf(),
            final(self).buffer == old(self).buffer,
            final(self).transaction is None,
            final(self).history@ == match old(self).transaction {
                Some(tx) => record_view(old(self).history@, tx@),
                None => old(self).history@,
            },
    {
        if let Some(tx) = self.transaction.take() {
            self.history.commit(tx);
        }
    }

    /// Undoes the last commit on the text and answers where the cursor goes. Where the
    /// inverted edits do not fit the text (the rope crate would panic), nothing changes
    /// and the answer is `None`, as when there is nothing to undo.
    pub fn undo(&mut self) -> (r: Option<usize>)
        requires
            old(self).wf(),
        ensures
            final(self).wf(),
            final(self).transaction == old(self).transaction,
            final(self).id == old(self).id,
            final(self).meta == old(self).meta,
            ({
                let h = old(self).history@;
                let t = old(self).buffer@.text;
                if h.head > 0 && fit_len(t.len(), inverse_edits(undo_commit(h).edits)) is Some {
                    &&& final(self).history@ == undo_view(h)
                    &&& r matches Some(p) && undo_pos(h) == Some(p as nat)
                    &&& final(self).buffer@ == (BufferView { text: undo_text(h, t), ..old(self).buffer@ })
                } else {
                    &&& r is None
                    &&& final(self).history@ == h
                    &&& final(self).buffer@ == old(self).buffer@
                }
            }),
    {
        let len = self.buffer.len_chars();
        if !self.history.undo_fits(len) {
            return None;
        }
        proof {
            lemma_fit_len_applies(self.buffer@.text, inverse_edits(undo_commit(self.history@).edits));
        }
        let r = self.history.undo(self.buffer.text_mut());
        r
    }

    /// Redoes the next commit on the text and answers where the cursor goes. Where the
    /// edits do not fit the text (the rope crate would panic), nothing changes and the
    /// answer is `None`, as when there is nothing to redo.
    pub fn redo(&mut self) -> (r: Option<usize>)
        requires
            old(self).wf(),
        ensures
            final(self).wf(),
            final(self).transaction == old(self).transaction,
            final(self).id == old(self).id,
            final(self).meta == old(self).meta,
            ({
                let h = old(self).history@;
                let t = old(self).buffer@.text;
                if h.head < h.commits.len() && fit_len(t.len(), redo_commit(h).edits) is Some {
                    &&& final(self).history@ == redo_view(h)
                    &&& r matches Some(p) && redo_pos(h) == Some(p as nat)
                    &&& final(self).buffer@ == (BufferView { text: redo_text(h, t), ..old(self).buffer@ })
                } else {
                    &&& r is None
                    &&& final(self).history@ == h
                    &&& final(self).buffer@ == old(self).buffer@
                }
            }),
    {
        let len = self.buffer.len_chars();
        if !self.history.redo_fits(len) {
            return None;
        }
        proof {
            lemma_fit_len_applies(self.buffer@.text, redo_commit(self.history@).edits);
        }
        let r = self.history.redo(self.buffer.text_mut());
        r
    }
}

} // verus!
