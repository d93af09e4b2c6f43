//! Undo history: a bounded list of committed transactions and a head that
//! separates the undoable ones from the redoable ones.
use vstd::prelude::*;
use std::collections::VecDeque;
use crate::rope::rope_text;
use crate::transaction::{
    apply_edits, first_pos, fit_len, inverse_edits, last_pos, law_inverse_undoes, undoable, Edit,
    Transaction,
};

verus! {

/// A committed transaction, as a mathematical value.
pub struct CommitView {
    pub edits: Seq<Edit>,
    /// Where the cursor goes when the transaction is undone.
    pub before: nat,
    /// Where the cursor goes when the transaction is redone.
    pub after: nat,
}

/// The commit that a transaction with edits `es` makes: none when every edit is a move.
pub open spec fn commit_of(es: Seq<Edit>) -> Option<CommitView> {
    match (first_pos(es), last_pos(es)) {
        (Some(b), Some(a)) => Some(CommitView { edits: es, before: b, after: a }),
        _ => None,
    }
}

/// A transaction together with the cursor positions of its first and last edit.
pub struct Commit {
    pub tx: Transaction,
    pub before: usize,
    pub after: usize,
}

impl View for Commit {
    type V = CommitView;

    open spec fn view(&self) -> CommitView {
        CommitView { edits: self.tx@, before: self.before as nat, after: self.after as nat }
    }
}

impl Commit {
    /// The commit of `tx`, or `None` when `tx` holds nothing but moves.
    pub fn from_transaction(tx: Transaction) -> (r: Option<Commit>)
        ensures
            r is Some <==> commit_of(tx@) is Some,
            r matches Some(c) ==> commit_of(tx@) == Some(c@),
    {
        match tx.positions() {
            Some((before, after)) => Some(Commit { tx, before, after }),
            None => None,
        }
    }
}

/// The history as a mathematical value.
pub struct HistoryView {
    /// Number of commits that can be undone; those from `head` on can be redone.
    pub head: nat,
    pub max_items: nat,
    pub commits: Seq<CommitView>,
}

/// The head never passes the end of the commits.
pub open spec fn history_wf(h: HistoryView) -> bool {
    h.head <= h.commits.len()
}

/// The history after recording `c`: the oldest commit goes when the history is full,
/// the redoable ones are dropped, and `c` becomes the last undoable one.
pub open spec fn commit_view(h: HistoryView, c: CommitView) -> HistoryView {
    let full = h.commits.len() == h.max_items;
    let commits1 = if full && h.commits.len() > 0 {
        h.commits.drop_first()
    } else {
        h.commits
    };
    let head1: nat = if full && h.head > 0 {
        (h.head - 1) as nat
    } else {
        h.head
    };
    let commits2 = if head1 < commits1.len() {
        commits1.take(head1 as int)
    } else {
        commits1
    };
    HistoryView { head: head1 + 1, max_items: h.max_items, commits: commits2.push(c) }
}

/// The history after recording a transaction with edits `es`.
pub open spec fn record_view(h: HistoryView, es: Seq<Edit>) -> HistoryView {
    match commit_of(es) {
        Some(c) => commit_view(h, c),
        None => h,
    }
}

/// The commit that an undo reverts.
pub open spec fn undo_commit(h: HistoryView) -> CommitView {
    h.commits[h.head - 1]
}

/// Whether undoing on text `t` stays inside the text.
pub open spec fn can_undo_on(h: HistoryView, t: Seq<char>) -> bool {
    h.head > 0 ==> apply_edits(t, inverse_edits(undo_commit(h).edits)) is Some
}

/// The history after an undo.
pub open spec fn undo_view(h: HistoryView) -> HistoryView {
    if h.head > 0 {
        HistoryView { head: (h.head - 1) as nat, ..h }
    } else {
        h
    }
}

/// What an undo answers: where the cursor goes, or `None` when nothing can be undone.
pub open spec fn undo_pos(h: HistoryView) -> Option<nat> {
    if h.head > 0 {
        Some(undo_commit(h).before)
    } else {
        None
    }
}

/// The text after an undo on `t`.
pub open spec fn undo_text(h: HistoryView, t: Seq<char>) -> Seq<char> {
    if h.head > 0 {
        apply_edits(t, inverse_edits(undo_commit(h).edits))->0
    } else {
        t
    }
}

/// The commit that a redo replays.
pub open spec fn redo_commit(h: HistoryView) -> CommitView {
    h.commits[h.head as int]
}

/// Whether redoing on text `t` stays inside the text.
pub open spec fn can_redo_on(h: HistoryView, t: Seq<char>) -> bool {
    h.head < h.commits.len() ==> apply_edits(t, redo_commit(h).edits) is Some
}

/// The history after a redo.
pub open spec fn redo_view(h: HistoryView) -> HistoryView {
    if h.head < h.commits.len() {
        HistoryView { head: h.head + 1, ..h }
    } else {
        h
    }
}

/// What a redo answers: where the cursor goes, or `None` when nothing can be redone.
pub open spec fn redo_pos(h: HistoryView) -> Option<nat> {
    if h.head < h.commits.len() {
        Some(redo_commit(h).after)
    } else {
        None
    }
}

/// The text after a redo on `t`.
pub open spec fn redo_text(h: HistoryView, t: Seq<char>) -> Seq<char> {
    if h.head < h.commits.len() {
        apply_edits(t, redo_commit(h).edits)->0
    } else {
        t
    }
}

/// Committed transactions, oldest first, of which the first `head` can be undone.
pub struct History {
    head: usize,
    max_items: usize,
    commits: VecDeque<Commit>,
}

impl View for History {
    type V = HistoryView;

    closed spec fn view(&self) -> HistoryView {
        HistoryView {
            head: self.head as nat,
            max_items: self.max_items as nat,
            commits: self.commits@.map_values(|c: Commit| c@),
        }
    }
}

impl History {
    /// Number of commits kept by a default history.
    pub const DEFAULT_CAPACITY: usize = 50;

    /// Well-formedness: the head never passes the end of the commits.
    pub open spec fn wf(&self) -> bool {
        history_wf(self@)
    }

    /// An empty history that keeps at most `max_items` commits.
    pub fn new(max_items: usize) -> (h: Self)
        ensures
            h.wf(),
            h@ == (HistoryView { head: 0, max_items: max_items as nat, commits: Seq::empty() }),
    {
        let h = History { head: 0, max_items, commits: VecDeque::with_capacity(max_items) };
        assert(h@.commits =~= Seq::<CommitView>::empty());
        h
    }


    /// Records `tx`, unless it holds nothing but moves: when the history is full its
    /// oldest commit is dropped, and the commits that could be redone are dropped.
    pub fn commit(&mut self, tx: Transaction)
        requires
            old(self).wf(),
        ensures
            final(self).wf(),
            final(self)@ == record_view(old(self)@, tx@),
    {
        let ghost h = self@;
        let commit = match Commit::from_transaction(tx) {
            Some(c) => c,
            None => return,
        };
        let ghost cv = commit@;
        if self.commits.len() == self.max_items {
            let ghost before = self.commits@;
            self.commits.pop_front();
            self.head = if self.head > 0 { self.head - 1 } else { 0 };
            proof {
                if before.len() > 0 {
                    assert(self.commits@.map_values(|c: Commit| c@) =~= h.commits.drop_first());
                } else {
                    assert(self.commits@.map_values(|c: Commit| c@) =~= h.commits);
                }
            }
        }
        let ghost c1 = self.commits@.map_values(|c: Commit| c@);
        if self.head < self.commits.len() {
            self.commits.truncate(self.head);
            assert(self.commits@.map_values(|c: Commit| c@) =~= c1.take(self.head as int));
        }
        let ghost c2 = self.commits@.map_values(|c: Commit| c@);
        self.commits.push_back(commit);
        let n = self.commits.len();
        assert(self.commits@.map_values(|c: Commit| c@) =~= c2.push(cv));
        self.head = self.head + 1;
        proof {
            assert(n == c2.len() + 1);
        }
    }

    /// Whether an undo would answer something and its inverted edits fit a text of `len`
    /// chars.
    pub fn undo_fits(&self, len: usize) -> (b: bool)
        requires
            self.wf(),
        ensures
            b == (self@.head > 0 && fit_len(len as nat, inverse_edits(undo_commit(self@).edits)) is Some),
    {
        if self.head == 0 {
            return false;
        }
        let commit = &self.commits[self.head - 1];
        proof {
            assert(commit@ == self@.commits[self.head - 1]);
        }
        commit.tx.inverse().fits(len)
    }

    /// Whether a redo would answer something and its edits fit a text of `len` chars.
    pub fn redo_fits(&self, len: usize) -> (b: bool)
        requires
            self.wf(),
        ensures
            b == (self@.head < self@.commits.len() && fit_len(len as nat, redo_commit(self@).edits) is Some),
    {
        if self.head == self.commits.len() {
            return false;
        }
        let commit = &self.commits[self.head];
        proof {
            assert(commit@ == self@.commits[self.head as int]);
        }
        commit.tx.fits(len)
    }

    /// Undoes the last undoable commit on `text` and answers where the cursor goes, or
    /// answers `None` and changes nothing when there is none. The rope crate panics when
    /// an inverted edit falls outside the text, hence the requirement.
    pub fn undo(&mut self, text: &mut ropey::Rope) -> (r: Option<usize>)
        requires
            old(self).wf(),
            can_undo_on(old(self)@, rope_text(*old(text))),
        ensures
            final(self).wf(),
            final(self)@ == undo_view(old(self)@),
            r matches Some(p) ==> undo_pos(old(self)@) == Some(p as nat),
            r is None ==> undo_pos(old(self)@) is None,
            rope_text(*final(text)) == undo_text(old(self)@, rope_text(*old(text))),
    {
        if self.head == 0 {
            return None;
        }
        self.head = self.head - 1;
        let commit = &self.commits[self.head];
        proof {
            assert(commit@ == old(self)@.commits[self.head as int]);
        }
        let inverse = commit.tx.inverse();
        inverse.apply(text);
        Some(commit.before)
    }

    /// Replays the first redoable commit on `text` and answers where the cursor goes, or
    /// answers `None` and changes nothing when there is none. The rope crate panics when
    /// an edit falls outside the text, hence the requirement.
    pub fn redo(&mut self, text: &mut ropey::Rope) -> (r: Option<usize>)
        requires
            old(self).wf(),
            can_redo_on(old(self)@, rope_text(*old(text))),
        ensures
            final(self).wf(),
            final(self)@ == redo_view(old(self)@),
            r matches Some(p) ==> redo_pos(old(self)@) == Some(p as nat),
            r is None ==> redo_pos(old(self)@) is None,
            rope_text(*final(text)) == redo_text(old(self)@, rope_text(*old(text))),
    {
        if self.head == self.commits.len() {
            return None;
        }
        let commit = &self.commits[self.head];
        proof {
            assert(commit@ == old(self)@.commits[self.head as int]);
        }
        self.head = self.head + 1;
        commit.tx.apply(text);
        Some(commit.after)
    }
}

impl Default for History {
    /// An empty history with the default capacity.
    fn default() -> (h: Self)
        ensures
            h.wf(),
            h@ == (HistoryView {
                head: 0,
                max_items: History::DEFAULT_CAPACITY as nat,
                commits: Seq::empty(),
            }),
    {
        History::new(History::DEFAULT_CAPACITY)
    }
}

/// After a commit, the new commit is the last undoable one and nothing can be redone.
pub proof fn lemma_commit_view_top(h: HistoryView, c: CommitView)
    requires
        history_wf(h),
    ensures
        history_wf(commit_view(h, c)),
        commit_view(h, c).head == commit_view(h, c).commits.len(),
        undo_commit(commit_view(h, c)) == c,
        commit_view(h, c).max_items == h.max_items,
{
}

/// Undo law: a transaction that was replayed on `t` and committed is undone by the next
/// undo, which gives back `t` and answers the position of its first edit; the redo that
/// follows replays it and answers the position of its last edit; and a commit leaves
/// nothing to redo.
pub proof fn law_undo_after_commit(h: HistoryView, es: Seq<Edit>, t: Seq<char>)
    requires
        history_wf(h),
        commit_of(es) is Some,
        apply_edits(t, es) is Some,
        undoable(t, es),
    ensures
        ({
            let h2 = record_view(h, es);
            let t2 = apply_edits(t, es)->0;
            &&& history_wf(h2)
            &&& redo_pos(h2) is None
            &&& can_undo_on(h2, t2)
            &&& undo_pos(h2) == first_pos(es)
            &&& undo_text(h2, t2) == t
            &&& can_redo_on(undo_view(h2), t)
            &&& redo_pos(undo_view(h2)) == last_pos(es)
            &&& redo_text(undo_view(h2), t) == t2
            &&& redo_view(undo_view(h2)) == h2
        }),
{
    let c = commit_of(es)->0;
    lemma_commit_view_top(h, c);
    law_inverse_undoes(t, es);
    let h2 = record_view(h, es);
    let h3 = undo_view(h2);
    assert(h3.commits == h2.commits);
    assert(redo_commit(h3) == c);
    assert(redo_view(h3) =~= h2);
}

/// The history after `k` undos in a row.
pub open spec fn undo_times(h: HistoryView, k: nat) -> HistoryView
    decreases k,
{
    if k == 0 {
        h
    } else {
        undo_view(undo_times(h, (k - 1) as nat))
    }
}

/// Each undo lowers the head by one, down to zero, and keeps the commits.
pub proof fn lemma_undo_times(h: HistoryView, k: nat)
    ensures
        undo_times(h, k).head == if k <= h.head { (h.head - k) as nat } else { 0 },
        undo_times(h, k).commits == h.commits,
        undo_times(h, k).max_items == h.max_items,
    decreases k,
{
    if k > 0 {
        lemma_undo_times(h, (k - 1) as nat);
    }
}

/// Commit law: recording edits that change the text leaves nothing to redo and makes
/// them the first to be undone; then exactly `head` undos in a row answer something,
/// where `head` is one more than before, except in a full history that had something to
/// undo, whose oldest commit goes and which keeps that number. With nothing to redo
/// before, this is one more, up to the capacity. Recording moves alone changes nothing.
pub proof fn law_commit_undo_depth(h: HistoryView, es: Seq<Edit>)
    requires
        history_wf(h),
        h.max_items > 0,
        h.commits.len() <= h.max_items,
    ensures
        commit_of(es) is None ==> record_view(h, es) == h,
        commit_of(es) is Some ==> {
            let h2 = record_view(h, es);
            &&& history_wf(h2)
            &&& redo_pos(h2) is None
            &&& undo_commit(h2).edits == es
            &&& h2.head == if h.commits.len() == h.max_items && h.head > 0 {
                h.head
            } else {
                h.head + 1
            }
            &&& h.head == h.commits.len() ==> h2.head == if h.head + 1 <= h.max_items {
                h.head + 1
            } else {
                h.max_items
            }
            &&& forall|k: nat| #[trigger] undo_pos(undo_times(h2, k)) is Some <==> k < h2.head
        },
{
    if let Some(c) = commit_of(es) {
        lemma_commit_view_top(h, c);
        let h2 = record_view(h, es);
        assert forall|k: nat| #[trigger] undo_pos(undo_times(h2, k)) is Some <==> k < h2.head by {
            lemma_undo_times(h2, k);
        }
    }
}

/// An undo followed by a redo gives back the history it started from, and the redo
/// answers the position of the last edit of the commit that the undo reverted.
pub proof fn law_redo_after_undo(h: HistoryView)
    requires
        history_wf(h),
        h.head > 0,
    ensures
        history_wf(undo_view(h)),
        redo_view(undo_view(h)) == h,
        redo_pos(undo_view(h)) == Some(undo_commit(h).after),
{
    assert(redo_view(undo_view(h)) =~= h);
}

/// A history with a positive capacity never holds more commits than its capacity.
pub proof fn law_commit_bounded(h: HistoryView, es: Seq<Edit>)
    requires
        history_wf(h),
        h.max_items > 0,
        h.commits.len() <= h.max_items,
    ensures
        history_wf(record_view(h, es)),
        record_view(h, es).commits.len() <= h.max_items,
        record_view(h, es).max_items == h.max_items,
{
    if let Some(c) = commit_of(es) {
        lemma_commit_view_top(h, c);
    }
}

} // verus!
