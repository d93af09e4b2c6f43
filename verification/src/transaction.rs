//! Edits to a text recorded as a transaction: insertions, deletions and cursor moves,
//! which can be replayed on a rope and inverted.
use vstd::prelude::*;
use crate::rope::{rope_insert, rope_len_chars, rope_remove, rope_text};
use crate::chars::str_chars;
use crate::text::reverse;

verus! {

/// One recorded edit, as a mathematical value.
pub enum Edit {
    /// `content` was put before char index `pos`.
    Insert(Seq<char>, nat),
    /// The chars of `content`, last one first, were taken out at char index `pos`.
    Delete(Seq<char>, nat),
    /// The cursor moved: a boundary that stops adjacent edits from being joined.
    Move,
}

/// The text that an insertion or deletion carries, and where it applies.
pub struct Change {
    pub content: Vec<char>,
    pub pos: usize,
}

/// One recorded action of a transaction.
pub enum Action {
    Insert(Change),
    Delete(Change),
    Move,
}

impl View for Action {
    type V = Edit;

    open spec fn view(&self) -> Edit {
        match self {
            Action::Insert(c) => Edit::Insert(c.content@, c.pos as nat),
            Action::Delete(c) => Edit::Delete(c.content@, c.pos as nat),
            Action::Move => Edit::Move,
        }
    }
}

impl Action {
    /// The action that undoes this one; a deletion is undone by inserting its content in
    /// reverse.
    pub fn inverse(&self) -> (r: Action)
        ensures
            r@ == invert(self@),
    {
        match self {
            Action::Insert(c) => Action::Delete(Change { content: copy_chars(&c.content), pos: c.pos }),
            Action::Delete(c) => Action::Insert(Change { content: reversed_chars(&c.content), pos: c.pos }),
            Action::Move => Action::Move,
        }
    }
}

/// The edits of a sequence of actions.
pub open spec fn edits_of(actions: Seq<Action>) -> Seq<Edit> {
    actions.map_values(|a: Action| a@)
}

/// Records an insertion of `s` at `pos`: it extends a trailing insertion, else starts one.
pub open spec fn push_insert(es: Seq<Edit>, pos: nat, s: Seq<char>) -> Seq<Edit> {
    if es.len() > 0 && es.last() is Insert {
        es.update(es.len() - 1, Edit::Insert(es.last()->Insert_0 + s, es.last()->Insert_1))
    } else {
        es.push(Edit::Insert(s, pos))
    }
}

/// Records a deletion of `s` at `pos`: it extends a trailing deletion, which then starts
/// at `pos`, else starts one.
pub open spec fn push_delete(es: Seq<Edit>, pos: nat, s: Seq<char>) -> Seq<Edit> {
    if es.len() > 0 && es.last() is Delete {
        es.update(es.len() - 1, Edit::Delete(es.last()->Delete_0 + s, pos))
    } else {
        es.push(Edit::Delete(s, pos))
    }
}

/// Records a cursor move, unless the last edit already is one.
pub open spec fn push_move(es: Seq<Edit>) -> Seq<Edit> {
    if es.len() > 0 && es.last() is Move {
        es
    } else {
        es.push(Edit::Move)
    }
}

/// Records one more edit the way the transaction operations do.
pub open spec fn push_edit(es: Seq<Edit>, e: Edit) -> Seq<Edit> {
    match e {
        Edit::Insert(s, p) => push_insert(es, p, s),
        Edit::Delete(s, p) => push_delete(es, p, s),
        Edit::Move => push_move(es),
    }
}

/// Records the edits of `other`, in order, after those of `es`.
pub open spec fn merge_edits(es: Seq<Edit>, other: Seq<Edit>) -> Seq<Edit>
    decreases other.len(),
{
    if other.len() == 0 {
        es
    } else {
        push_edit(merge_edits(es, other.drop_last()), other.last())
    }
}

/// The edit that undoes `e`.
pub open spec fn invert(e: Edit) -> Edit {
    match e {
        Edit::Insert(s, p) => Edit::Delete(s, p),
        Edit::Delete(s, p) => Edit::Insert(reverse(s), p),
        Edit::Move => Edit::Move,
    }
}

/// The edits that undo `es`: each one inverted, last one first.
pub open spec fn inverse_edits(es: Seq<Edit>) -> Seq<Edit> {
    Seq::new(es.len(), |i: int| invert(es[es.len() - 1 - i]))
}

/// The text after one edit, or `None` when the edit falls outside the text.
pub open spec fn apply_edit(t: Seq<char>, e: Edit) -> Option<Seq<char>> {
    match e {
        Edit::Insert(s, p) => if p <= t.len() {
            Some(t.take(p as int) + s + t.skip(p as int))
        } else {
            None
        },
        Edit::Delete(s, p) => if p + s.len() <= t.len() {
            Some(t.take(p as int) + t.skip((p + s.len()) as int))
        } else {
            None
        },
        Edit::Move => Some(t),
    }
}

/// The text after the edits, in order, or `None` when one of them falls outside the text.
pub open spec fn apply_edits(t: Seq<char>, es: Seq<Edit>) -> Option<Seq<char>>
    decreases es.len(),
{
    if es.len() == 0 {
        Some(t)
    } else {
        match apply_edits(t, es.drop_last()) {
            Some(t2) => apply_edit(t2, es.last()),
            None => None,
        }
    }
}

/// Each deletion takes out exactly its content, last char first, so that the edits can
/// be undone.
pub open spec fn undoable(t: Seq<char>, es: Seq<Edit>) -> bool
    decreases es.len(),
{
    if es.len() == 0 {
        true
    } else {
        undoable(t, es.drop_last()) && match apply_edits(t, es.drop_last()) {
            Some(t2) => match es.last() {
                Edit::Delete(s, p) => p + s.len() <= t2.len() && t2.subrange(
                    p as int,
                    (p + s.len()) as int,
                ) == reverse(s),
                _ => true,
            },
            None => true,
        }
    }
}

/// Replaying two runs of edits one after the other is replaying their concatenation.
pub proof fn lemma_apply_concat(t: Seq<char>, a: Seq<Edit>, b: Seq<Edit>)
    ensures
        apply_edits(t, a + b) == match apply_edits(t, a) {
            Some(t2) => apply_edits(t2, b),
            None => None,
        },
    decreases b.len(),
{
    if b.len() == 0 {
        assert(a + b =~= a);
    } else {
        assert((a + b).drop_last() =~= a + b.drop_last());
        lemma_apply_concat(t, a, b.drop_last());
        if let Some(t2) = apply_edits(t, a) {
            assert(apply_edits(t2, b) == match apply_edits(t2, b.drop_last()) {
                Some(t3) => apply_edit(t3, b.last()),
                None => None,
            });
        }
    }
}

/// A run of edits that can be replayed can be replayed on each of its prefixes.
pub proof fn lemma_apply_prefix(t: Seq<char>, es: Seq<Edit>, i: int)
    requires
        0 <= i <= es.len(),
        apply_edits(t, es) is Some,
    ensures
        apply_edits(t, es.take(i)) is Some,
        i < es.len() ==> apply_edit(apply_edits(t, es.take(i))->0, es[i]) is Some,
        i < es.len() ==> apply_edits(t, es.take(i + 1)) == apply_edit(
            apply_edits(t, es.take(i))->0,
            es[i],
        ),
    decreases es.len() - i,
{
    if i == es.len() {
        assert(es.take(i) =~= es);
    } else {
        lemma_apply_prefix(t, es, i + 1);
        assert(es.take(i + 1).drop_last() =~= es.take(i));
    }
}

/// Inverting a single edit and replaying it after the edit gives back the text.
pub proof fn lemma_invert_one(t: Seq<char>, e: Edit)
    requires
        apply_edit(t, e) is Some,
        undoable(t, seq![e]),
    ensures
        apply_edit(apply_edit(t, e)->0, invert(e)) == Some(t),
{
    let es = seq![e];
    assert(es.drop_last() =~= Seq::<Edit>::empty());
    assert(es.last() == e);
    assert(apply_edits(t, Seq::<Edit>::empty()) == Some(t));
    let t2 = apply_edit(t, e)->0;
    match e {
        Edit::Insert(s, p) => {
            assert(t2.take(p as int) + t2.skip((p + s.len()) as int) =~= t);
        },
        Edit::Delete(s, p) => {
            let r = reverse(s);
            assert(r.len() == s.len());
            assert(t.subrange(p as int, (p + s.len()) as int) == r);
            assert(t2.take(p as int) + r + t2.skip(p as int) =~= t);
        },
        Edit::Move => {},
    }
}

/// Undo law: replaying the inverse of a run of undoable edits after the run gives back
/// the text that the run started from.
pub proof fn law_inverse_undoes(t: Seq<char>, es: Seq<Edit>)
    requires
        apply_edits(t, es) is Some,
        undoable(t, es),
    ensures
        apply_edits(apply_edits(t, es)->0, inverse_edits(es)) == Some(t),
    decreases es.len(),
{
    if es.len() == 0 {
    } else {
        let init = es.drop_last();
        let e = es.last();
        let t1 = apply_edits(t, init)->0;
        let t2 = apply_edits(t, es)->0;
        law_inverse_undoes(t, init);
        // apply_edits(t1, inverse(init)) == Some(t)
        assert(seq![e].drop_last() =~= Seq::<Edit>::empty());
        assert(apply_edits(t1, Seq::<Edit>::empty()) == Some(t1));
        assert(undoable(t1, Seq::<Edit>::empty()));
        assert(apply_edits(t1, seq![e]) == apply_edit(t1, e));
        assert(undoable(t1, seq![e]));
        lemma_invert_one(t1, e);
        assert(inverse_edits(es) =~= seq![invert(e)] + inverse_edits(init));
        lemma_apply_concat(t2, seq![invert(e)], inverse_edits(init));
        assert(seq![invert(e)].drop_last() =~= Seq::<Edit>::empty());
        assert(apply_edits(t2, Seq::<Edit>::empty()) == Some(t2));
        assert(apply_edits(t2, seq![invert(e)]) == apply_edit(t2, invert(e)));
    }
}


/// The length of the text after the edits on a text of `n` chars, or `None` when an edit
/// falls outside the text or a length passes `usize::MAX`.
pub open spec fn fit_len(n: nat, es: Seq<Edit>) -> Option<nat>
    decreases es.len(),
{
    if es.len() == 0 {
        if n <= usize::MAX {
            Some(n)
        } else {
            None
        }
    } else {
        match fit_len(n, es.drop_last()) {
            Some(m) => match es.last() {
                Edit::Insert(s, p) => if p <= m && m + s.len() <= usize::MAX {
                    Some(m + s.len())
                } else {
                    None
                },
                Edit::Delete(s, p) => if p + s.len() <= m {
                    Some((m - s.len()) as nat)
                } else {
                    None
                },
                Edit::Move => Some(m),
            },
            None => None,
        }
    }
}

/// Edits whose lengths fit can be replayed on every text of that length.
pub proof fn lemma_fit_len_applies(t: Seq<char>, es: Seq<Edit>)
    requires
        fit_len(t.len(), es) is Some,
    ensures
        apply_edits(t, es) is Some,
        apply_edits(t, es)->0.len() == fit_len(t.len(), es)->0,
    decreases es.len(),
{
    if es.len() > 0 {
        lemma_fit_len_applies(t, es.drop_last());
    }
}

/// Replaying a single edit.
pub proof fn lemma_apply_single(t: Seq<char>, e: Edit)
    ensures
        apply_edits(t, seq![e]) == apply_edit(t, e),
{
    assert(seq![e].drop_last() =~= Seq::<Edit>::empty());
    assert(apply_edits(t, Seq::<Edit>::empty()) == Some(t));
}

/// Merging a single edit records it.
pub proof fn lemma_merge_single(es: Seq<Edit>, e: Edit)
    ensures
        merge_edits(es, seq![e]) == push_edit(es, e),
{
    assert(seq![e].drop_last() =~= Seq::<Edit>::empty());
    assert(merge_edits(es, Seq::<Edit>::empty()) == es);
    assert(seq![e].last() == e);
}

/// Position of an insertion or deletion.
pub open spec fn edit_pos(e: Edit) -> nat {
    match e {
        Edit::Insert(_, p) => p,
        Edit::Delete(_, p) => p,
        Edit::Move => 0,
    }
}

/// Position of the first edit that is not a move.
pub open spec fn first_pos(es: Seq<Edit>) -> Option<nat>
    decreases es.len(),
{
    if es.len() == 0 {
        None
    } else if es[0] is Move {
        first_pos(es.drop_first())
    } else {
        Some(edit_pos(es[0]))
    }
}

/// Position of the last edit that is not a move.
pub open spec fn last_pos(es: Seq<Edit>) -> Option<nat>
    decreases es.len(),
{
    if es.len() == 0 {
        None
    } else if es.last() is Move {
        last_pos(es.drop_last())
    } else {
        Some(edit_pos(es.last()))
    }
}

/// Two deletions in a row are recorded as one.
proof fn lemma_push_delete_twice(es: Seq<Edit>, p1: nat, a: Seq<char>, p2: nat, b: Seq<char>)
    ensures
        push_delete(push_delete(es, p1, a), p2, b) == push_delete(es, p2, a + b),
{
    if es.len() > 0 && es.last() is Delete {
        let c = es.last()->Delete_0;
        assert(c + a + b =~= c + (a + b));
        assert(es.update(es.len() - 1, Edit::Delete(c + a, p1)).update(
            es.len() - 1,
            Edit::Delete(c + a + b, p2),
        ) =~= es.update(es.len() - 1, Edit::Delete(c + (a + b), p2)));
    } else {
        assert(es.push(Edit::Delete(a, p1)).update(es.len() as int, Edit::Delete(a + b, p2))
            =~= es.push(Edit::Delete(a + b, p2)));
    }
}

/// The edits of an insertion or a deletion that carries `content` at `pos`.
pub open spec fn change_edit(is_insert: bool, content: Seq<char>, pos: nat) -> Edit {
    if is_insert {
        Edit::Insert(content, pos)
    } else {
        Edit::Delete(content, pos)
    }
}

/// A sequence of recorded edits, built by insertions, deletions and moves.
pub struct Transaction {
    changes: Vec<Action>,
}

impl View for Transaction {
    type V = Seq<Edit>;

    closed spec fn view(&self) -> Seq<Edit> {
        edits_of(self.changes@)
    }
}

impl Transaction {
    /// An empty transaction.
    pub fn new() -> (tx: Self)
        ensures
            tx@ == Seq::<Edit>::empty(),
    {
        let tx = Transaction { changes: Vec::new() };
        assert(tx@ =~= Seq::<Edit>::empty());
        tx
    }

    /// The edits that undo this transaction: each one inverted, the last one first; a
    /// deletion is undone by inserting its content in reverse.
    pub fn inverse(&self) -> (tx: Self)
        ensures
            tx@ == inverse_edits(self@),
    {
        let n = self.changes.len();
        let mut changes: Vec<Action> = Vec::new();
        let mut k: usize = 0;
        while k < n
            invariant
                n == self.changes@.len(),
                k <= n,
                edits_of(changes@) =~= inverse_edits(edits_of(self.changes@)).take(k as int),
            decreases n - k,
        {
            let i = n - 1 - k;
            let action = self.changes[i].inverse();
            proof {
                assert(action@ == invert(edits_of(self.changes@)[i as int]));
            }
            let ghost prev = changes@;
            changes.push(action);
            proof {
                assert(edits_of(changes@) =~= edits_of(prev).push(action@));
            }
            k = k + 1;
        }
        assert(inverse_edits(edits_of(self.changes@)).take(n as int) =~= inverse_edits(edits_of(self.changes@)));
        Transaction { changes }
    }

    /// Records the edits of `tx`, in order, after those of this transaction, joining
    /// adjacent insertions and adjacent deletions as the recording operations do.
    pub fn merge(&mut self, tx: Transaction)
        ensures
            final(self)@ == merge_edits(old(self)@, tx@),
    {
        let n = tx.changes.len();
        let ghost start = self@;
        let ghost other = tx@;
        let mut i: usize = 0;
        while i < n
            invariant
                n == tx.changes@.len(),
                other == edits_of(tx.changes@),
                i <= n,
                self@ == merge_edits(start, other.take(i as int)),
            decreases n - i,
        {
            assert(other.take(i + 1).drop_last() =~= other.take(i as int));
            match &tx.changes[i] {
                Action::Insert(c) => self.insert_impl(c.pos, c.content.as_slice()),
                Action::Delete(c) => self.delete_impl(c.pos, c.content.as_slice()),
                Action::Move => self.shift(),
            }
            i = i + 1;
        }
        assert(other.take(n as int) =~= other);
    }

    /// Replays the edits, in order, on `text`; the rope crate panics when an edit falls
    /// outside the text, hence the requirement.
    pub fn apply(&self, text: &mut ropey::Rope)
        requires
            apply_edits(rope_text(*old(text)), self@) is Some,
        ensures
            rope_text(*final(text)) == apply_edits(rope_text(*old(text)), self@)->0,
    {
        let ghost t0 = rope_text(*text);
        let ghost es = self@;
        let n = self.changes.len();
        let mut i: usize = 0;
        proof {
            assert(es.take(0) =~= Seq::<Edit>::empty());
        }
        while i < n
            invariant
                n == self.changes@.len(),
                es == edits_of(self.changes@),
                apply_edits(t0, es) is Some,
                i <= n,
                apply_edits(t0, es.take(i as int)) == Some(rope_text(*text)),
            decreases n - i,
        {
            proof {
                lemma_apply_prefix(t0, es, i as int);
            }
            match &self.changes[i] {
                Action::Insert(c) => {
                    rope_insert(text, c.pos, c.content.as_slice());
                    assert(rope_text(*text) =~= apply_edit(apply_edits(t0, es.take(i as int))->0, es[i as int])->0);
                },
                Action::Delete(c) => {
                    // The deletion lies within the text, whose length fits in a `usize`.
                    let text_len = rope_len_chars(text);
                    assert(c.pos + c.content.len() <= text_len);
                    let end = c.pos + c.content.len();
                    rope_remove(text, c.pos, end);
                },
                Action::Move => {},
            }
            i = i + 1;
        }
        proof {
            assert(es.take(n as int) =~= es);
        }
    }

    /// Whether the edits can be replayed on a text of `len` chars, the lengths on the way
    /// staying within `usize`.
    pub fn fits(&self, len: usize) -> (b: bool)
        ensures
            b == fit_len(len as nat, self@) is Some,
    {
        self.fit_length(len).is_some()
    }

    /// The length of a text of `len` chars after the edits, or `None` when an edit falls
    /// outside the text or a length on the way passes `usize::MAX`.
    pub fn fit_length(&self, len: usize) -> (r: Option<usize>)
        ensures
            r is Some <==> fit_len(len as nat, self@) is Some,
            r matches Some(m) ==> fit_len(len as nat, self@) == Some(m as nat),
    {
        let ghost es = self@;
        let n = self.changes.len();
        let mut cur: usize = len;
        let mut i: usize = 0;
        assert(es.take(0) =~= Seq::<Edit>::empty());
        while i < n
            invariant
                n == self.changes@.len(),
                es == edits_of(self.changes@),
                i <= n,
                fit_len(len as nat, es.take(i as int)) == Some(cur as nat),
            decreases n - i,
        {
            assert(es.take(i + 1).drop_last() =~= es.take(i as int));
            match &self.changes[i] {
                Action::Insert(c) => {
                    if c.pos > cur || c.content.len() > usize::MAX - cur {
                        proof { lemma_fit_len_none_extends(len as nat, es, (i + 1) as int); }
                        return None;
                    }
                    cur = cur + c.content.len();
                },
                Action::Delete(c) => {
                    if c.pos > cur || c.content.len() > cur - c.pos {
                        proof { lemma_fit_len_none_extends(len as nat, es, (i + 1) as int); }
                        return None;
                    }
                    cur = cur - c.content.len();
                },
                Action::Move => {},
            }
            i = i + 1;
        }
        assert(es.take(n as int) =~= es);
        Some(cur)
    }

    /// Records a cursor move, unless the last recorded edit already is one.
    pub fn shift(&mut self)
        ensures
            final(self)@ == push_move(old(self)@),
    {
        let n = self.changes.len();
        if n > 0 {
            if let Action::Move = &self.changes[n - 1] {
                return;
            }
        }
        self.changes.push(Action::Move);
        assert(self@ =~= push_move(old(self)@));
    }

    /// Records the insertion of `ch` at `pos`; it joins a trailing insertion, whose
    /// position is kept.
    pub fn insert_char(&mut self, pos: usize, ch: char)
        ensures
            final(self)@ == push_insert(old(self)@, pos as nat, seq![ch]),
    {
        let mut content: Vec<char> = Vec::new();
        content.push(ch);
        self.insert_impl(pos, content.as_slice());
    }

    /// Records the insertion of `s` at `pos`; it joins a trailing insertion, whose
    /// position is kept.
    pub fn insert_str(&mut self, pos: usize, s: &str)
        ensures
            final(self)@ == push_insert(old(self)@, pos as nat, s@),
    {
        let content = str_chars(s);
        self.insert_impl(pos, content.as_slice());
    }

    /// Records the insertion of `content` at `pos`.
    pub fn insert_impl(&mut self, pos: usize, content: &[char])
        ensures
            final(self)@ == push_insert(old(self)@, pos as nat, content@),
    {
        let ghost es = self@;
        match self.changes.pop() {
            Some(Action::Insert(c)) => {
                let mut c = c;
                append_chars(&mut c.content, content);
                self.changes.push(Action::Insert(c));
            },
            Some(other) => {
                self.changes.push(other);
                self.changes.push(Action::Insert(Change { content: copy_chars_slice(content), pos }));
            },
            None => {
                self.changes.push(Action::Insert(Change { content: copy_chars_slice(content), pos }));
            },
        }
        assert(self@ =~= push_insert(es, pos as nat, content@));
    }

    /// Records the deletion of `ch` at `pos`; it joins a trailing deletion, which then
    /// starts at `pos`.
    pub fn delete_char(&mut self, pos: usize, ch: char)
        ensures
            final(self)@ == push_delete(old(self)@, pos as nat, seq![ch]),
    {
        let mut content: Vec<char> = Vec::new();
        content.push(ch);
        self.delete_impl(pos, content.as_slice());
    }

    /// Records the deletion of `s`, which ends just before `pos`, as that many deletions
    /// of one char each going backwards; the position would underflow when `s` has more
    /// chars than `pos`.
    pub fn delete_str(&mut self, pos: usize, s: &str)
        requires
            s@.len() <= pos,
        ensures
            final(self)@ == if s@.len() == 0 {
                old(self)@
            } else {
                push_delete(old(self)@, (pos - s@.len()) as nat, reverse(s@))
            },
    {
        let content = str_chars(s);
        self.delete_backwards(pos, content.as_slice());
    }

    /// Records the deletion of `content`, which ends just before `pos`, as that many
    /// deletions of one char each going backwards.
    pub fn delete_backwards(&mut self, pos: usize, content: &[char])
        requires
            content@.len() <= pos,
        ensures
            final(self)@ == if content@.len() == 0 {
                old(self)@
            } else {
                push_delete(old(self)@, (pos - content@.len()) as nat, reverse(content@))
            },
    {
        let ghost es = self@;
        let n = content.len();
        let mut k: usize = 0;
        while k < n
            invariant
                n == content@.len(),
                n <= pos,
                k <= n,
                k == 0 ==> self@ == es,
                k > 0 ==> self@ == push_delete(es, (pos - k) as nat, reverse(content@).take(k as int)),
            decreases n - k,
        {
            let ch = content[n - 1 - k];
            proof {
                if k > 0 {
                    lemma_push_delete_twice(es, (pos - k) as nat, reverse(content@).take(k as int), (pos - 1 - k) as nat, seq![ch]);
                }
                assert(reverse(content@).take(k as int) + seq![ch] =~= reverse(content@).take(k + 1));
            }
            self.delete_char(pos - 1 - k, ch);
            k = k + 1;
        }
        proof {
            assert(reverse(content@).take(n as int) =~= reverse(content@));
        }
    }

    /// Records the deletion of `content` at `pos`.
    pub fn delete_impl(&mut self, pos: usize, content: &[char])
        ensures
            final(self)@ == push_delete(old(self)@, pos as nat, content@),
    {
        let ghost es = self@;
        match self.changes.pop() {
            Some(Action::Delete(c)) => {
                let mut c = c;
                append_chars(&mut c.content, content);
                c.pos = pos;
                self.changes.push(Action::Delete(c));
            },
            Some(other) => {
                self.changes.push(other);
                self.changes.push(Action::Delete(Change { content: copy_chars_slice(content), pos }));
            },
            None => {
                self.changes.push(Action::Delete(Change { content: copy_chars_slice(content), pos }));
            },
        }
        assert(self@ =~= push_delete(es, pos as nat, content@));
    }

    /// Positions of the first and of the last edit that is not a move.
    pub fn positions(&self) -> (r: Option<(usize, usize)>)
        ensures
            r is Some <==> first_pos(self@) is Some,
            r is Some <==> last_pos(self@) is Some,
            r matches Some((b, a)) ==> first_pos(self@) == Some(b as nat) && last_pos(self@) == Some(
                a as nat,
            ),
    {
        let ghost es = self@;
        let n = self.changes.len();
        let mut i: usize = 0;
        assert(es.skip(0) =~= es);
        while i < n && self.changes[i].is_move()
            invariant
                n == self.changes@.len(),
                es == edits_of(self.changes@),
                i <= n,
                first_pos(es) == first_pos(es.skip(i as int)),
            decreases n - i,
        {
            assert(es.skip(i as int).drop_first() =~= es.skip(i + 1));
            i = i + 1;
        }
        let mut j: usize = n;
        assert(es.take(n as int) =~= es);
        while j > 0 && self.changes[j - 1].is_move()
            invariant
                n == self.changes@.len(),
                es == edits_of(self.changes@),
                j <= n,
                last_pos(es) == last_pos(es.take(j as int)),
            decreases j,
        {
            assert(es.take(j as int).drop_last() =~= es.take(j - 1));
            j = j - 1;
        }
        if i < n && j > 0 {
            assert(es.skip(i as int)[0] == es[i as int]);
            assert(es.take(j as int).last() == es[j - 1]);
            Some((self.changes[i].pos(), self.changes[j - 1].pos()))
        } else {
            assert(i >= n ==> es.skip(i as int).len() == 0);
            assert(j == 0 ==> es.take(j as int).len() == 0);
            proof {
                if i >= n {
                    assert(forall|k: int| 0 <= k < es.len() ==> es[k] is Move) by {
                        lemma_first_none_all_moves(es);
                    }
                    lemma_all_moves_last_none(es);
                } else {
                    assert(forall|k: int| 0 <= k < es.len() ==> es[k] is Move) by {
                        lemma_last_none_all_moves(es);
                    }
                    lemma_all_moves_first_none(es);
                }
            }
            None
        }
    }
}

/// Edits that do not fit stay so when more edits follow.
proof fn lemma_fit_len_none_extends(n: nat, es: Seq<Edit>, k: int)
    requires
        0 <= k <= es.len(),
        fit_len(n, es.take(k)) is None,
    ensures
        fit_len(n, es) is None,
    decreases es.len() - k,
{
    if k < es.len() {
        assert(es.take(k + 1).drop_last() =~= es.take(k));
        lemma_fit_len_none_extends(n, es, k + 1);
    } else {
        assert(es.take(k) =~= es);
    }
}

/// No position at the front means only moves.
proof fn lemma_first_none_all_moves(es: Seq<Edit>)
    requires
        first_pos(es) is None,
    ensures
        forall|k: int| 0 <= k < es.len() ==> es[k] is Move,
    decreases es.len(),
{
    if es.len() > 0 {
        lemma_first_none_all_moves(es.drop_first());
        assert forall|k: int| 0 <= k < es.len() implies es[k] is Move by {
            if k > 0 {
                assert(es[k] == es.drop_first()[k - 1]);
            }
        }
    }
}

/// No position at the back means only moves.
proof fn lemma_last_none_all_moves(es: Seq<Edit>)
    requires
        last_pos(es) is None,
    ensures
        forall|k: int| 0 <= k < es.len() ==> es[k] is Move,
    decreases es.len(),
{
    if es.len() > 0 {
        lemma_last_none_all_moves(es.drop_last());
        assert forall|k: int| 0 <= k < es.len() implies es[k] is Move by {
            if k < es.len() - 1 {
                assert(es[k] == es.drop_last()[k]);
            }
        }
    }
}

/// Only moves leave no position at the front.
proof fn lemma_all_moves_first_none(es: Seq<Edit>)
    requires
        forall|k: int| 0 <= k < es.len() ==> es[k] is Move,
    ensures
        first_pos(es) is None,
    decreases es.len(),
{
    if es.len() > 0 {
        assert forall|k: int| 0 <= k < es.drop_first().len() implies es.drop_first()[k] is Move by {
            assert(es.drop_first()[k] == es[k + 1]);
        }
        lemma_all_moves_first_none(es.drop_first());
    }
}

/// Only moves leave no position at the back.
proof fn lemma_all_moves_last_none(es: Seq<Edit>)
    requires
        forall|k: int| 0 <= k < es.len() ==> es[k] is Move,
    ensures
        last_pos(es) is None,
    decreases es.len(),
{
    if es.len() > 0 {
        assert forall|k: int| 0 <= k < es.drop_last().len() implies es.drop_last()[k] is Move by {
            assert(es.drop_last()[k] == es[k]);
        }
        lemma_all_moves_last_none(es.drop_last());
    }
}

impl Action {
    /// Whether this action is a cursor move.
    pub fn is_move(&self) -> (b: bool)
        ensures
            b == (self@ is Move),
    {
        match self {
            Action::Move => true,
            _ => false,
        }
    }

    /// Position of an insertion or deletion; zero for a move.
    pub fn pos(&self) -> (p: usize)
        ensures
            p == edit_pos(self@),
    {
        match self {
            Action::Insert(c) => c.pos,
            Action::Delete(c) => c.pos,
            Action::Move => 0,
        }
    }
}

/// A copy of the chars of `v`.
pub fn copy_chars(v: &Vec<char>) -> (r: Vec<char>)
    ensures
        r@ == v@,
{
    copy_chars_slice(v.as_slice())
}

/// A copy of the chars of `v`.
pub fn copy_chars_slice(v: &[char]) -> (r: Vec<char>)
    ensures
        r@ == v@,
{
    let mut r: Vec<char> = Vec::new();
    append_chars(&mut r, v);
    r
}

/// Puts the chars of `v` after those of `dst`.
pub fn append_chars(dst: &mut Vec<char>, v: &[char])
    ensures
        final(dst)@ == old(dst)@ + v@,
{
    let n = v.len();
    let mut i: usize = 0;
    while i < n
        invariant
            n == v@.len(),
            i <= n,
            dst@ =~= old(dst)@ + v@.take(i as int),
        decreases n - i,
    {
        dst.push(v[i]);
        i = i + 1;
        assert(old(dst)@ + v@.take(i as int) =~= old(dst)@ + v@.take(i - 1) + seq![v@[i - 1]]);
    }
    assert(v@.take(n as int) =~= v@);
}

/// The chars of `v` in the opposite order.
pub fn reversed_chars(v: &Vec<char>) -> (r: Vec<char>)
    ensures
        r@ == reverse(v@),
{
    let n = v.len();
    let mut r: Vec<char> = Vec::new();
    let mut k: usize = 0;
    while k < n
        invariant
            n == v@.len(),
            k <= n,
            r@ =~= reverse(v@).take(k as int),
        decreases n - k,
    {
        r.push(v[n - 1 - k]);
        k = k + 1;
    }
    r
}

/// What a command tells the document to do with its pending transaction.
pub enum TransactionResult {
    /// Record the transaction in the history.
    Commit,
    /// Keep the transaction open for further edits.
    Keep,
    /// Drop the transaction.
    Abort,
}

} // verus!
