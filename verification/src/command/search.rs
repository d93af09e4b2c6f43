//! Search mode: typing a pattern, and jumping to its next or previous occurrence.
use vstd::prelude::*;
use crate::buffer::{byte_pos_of, curs_pos_of, BufferView, Mode};
use crate::command::modify::{check_pos, others_unchanged, pos_ok};
use crate::command::switch::{normal_mode, normal_mode_post, visual_to_normal_impl};
use crate::document::Document;
use crate::editor::Workspace;
use crate::event::{Event, EventOutcome, Input};
use crate::search::{law_search_sound, matches_at, search_spec, SearchOrder, SearchRegistry};
use crate::text::{byte_len, lemma_byte_to_line_start, len_lines, line_to_byte};

verus! {

/// The index a search starts from: one past the cursor forwards (at most the text end),
/// one before it backwards (at least zero).
pub open spec fn search_from(b: BufferView, order: SearchOrder) -> nat {
    let pos = byte_pos_of(b);
    match order {
        SearchOrder::Next => if pos + 1 <= b.text.len() {
            pos + 1
        } else {
            b.text.len()
        },
        SearchOrder::Prev => if pos >= 1 {
            (pos - 1) as nat
        } else {
            0
        },
    }
}

/// A search can run without panicking: the cursor position can be computed, the text
/// and pattern are not empty, and a forward pattern is no longer than the text.
pub open spec fn search_ok(b: BufferView, r: SearchRegistry, order: SearchOrder) -> bool {
    &&& pos_ok(b)
    &&& b.text.len() > 0
    &&& r.pattern().len() > 0
    &&& order is Next ==> byte_len(r.pattern()) <= b.text.len()
}

/// The buffer after a search: on a match the cursor goes to its last char and the match
/// is selected; otherwise, or where the search could not run, nothing changes.
pub open spec fn search_post(b0: BufferView, b1: BufferView, r: SearchRegistry, order: SearchOrder) -> bool {
    if search_ok(b0, r, order) {
        match search_spec(b0.text, r.pattern(), search_from(b0, order), order) {
            Some((s, e)) => if e <= byte_len(b0.text) {
                let (i, o) = curs_pos_of(b0.text, e);
                &&& b1 == (BufferView { index: i, offset: o, selection: b1.selection, ..b0 })
                &&& b1.selection matches Some(sel) && sel.anchor_spec() == s && sel.head_spec() == e
            } else {
                b1 == b0
            },
            None => b1 == b0,
        }
    } else {
        b1 == b0
    }
}

/// Everything but the typed pattern and the current document is unchanged.
pub open spec fn others_kept(a: Workspace, b: Workspace) -> bool {
    &&& b.current == a.current
    &&& b.documents@.len() == a.documents@.len()
    &&& forall|i: int| 0 <= i < a.documents@.len() && i != a.current ==> b.documents@[i]
        == a.documents@[i]
    &&& b.clipboard == a.clipboard
    &&& b.search_registry == a.search_registry
    &&& b.ids == a.ids
}

/// The workspace after the typed pattern, if any, became the search pattern.
pub open spec fn pattern_applied(w0: Workspace, w1: Workspace) -> bool {
    &&& w1.documents == w0.documents
    &&& w1.current == w0.current
    &&& w1.clipboard == w0.clipboard
    &&& w1.ids == w0.ids
    &&& if w0.search_buffer@.len() == 0 {
        w1.search_registry == w0.search_registry && w1.search_buffer == w0.search_buffer
    } else {
        w1.search_registry.pattern() == w0.search_buffer@ && w1.search_buffer@.len() == 0
    }
}

/// The workspace after a search is applied: the typed pattern becomes the search
/// pattern, the current document goes to normal mode, then to the next occurrence.
pub open spec fn apply_search_post(w0: Workspace, w1: Workspace) -> bool {
    exists|wa: Workspace, wb: Workspace|
        #![trigger pattern_applied(w0, wa), others_unchanged(wb, w1)]
        {
            &&& pattern_applied(w0, wa)
            &&& others_unchanged(wa, wb)
            &&& normal_mode_post(wa.cur_doc(), wb.cur_doc())
            &&& others_unchanged(wb, w1)
            &&& search_post(wb.cur_doc().buffer@, w1.cur_doc().buffer@, wb.search_registry, SearchOrder::Next)
            &&& w1.cur_doc().history == wb.cur_doc().history
            &&& w1.cur_doc().transaction == wb.cur_doc().transaction
            &&& w1.cur_doc().id == wb.cur_doc().id
            &&& w1.cur_doc().meta == wb.cur_doc().meta
        }
}

/// The workspace after a search is cancelled: the typed pattern is dropped, and the
/// current document loses its selection and is in normal mode.
pub open spec fn cancel_search_post(w0: Workspace, w1: Workspace) -> bool {
    let d0 = w0.cur_doc();
    let d1 = w1.cur_doc();
    &&& others_kept(w0, w1)
    &&& w1.search_buffer@.len() == 0
    &&& d1.buffer@ == (BufferView { selection: None, mode: Mode::Normal, ..d0.buffer@ })
    &&& d1.history == d0.history
    &&& d1.transaction == d0.transaction
    &&& d1.id == d0.id
    &&& d1.meta == d0.meta
}

/// What a key in search mode answers.
pub open spec fn search_key_outcome(input: Input) -> EventOutcome {
    match input.event {
        Event::Esc | Event::Enter | Event::Char(_) | Event::Backspace => EventOutcome::Render,
        _ => EventOutcome::Ignore,
    }
}

/// The workspace after a key in search mode.
pub open spec fn search_key_post(w0: Workspace, w1: Workspace, input: Input) -> bool {
    match input.event {
        Event::Esc => cancel_search_post(w0, w1),
        Event::Enter => apply_search_post(w0, w1),
        Event::Char(c) => others_kept(w0, w1) && w1.documents == w0.documents
            && w1.search_buffer@ == w0.search_buffer@.push(c),
        Event::Backspace => others_kept(w0, w1) && w1.documents == w0.documents
            && w1.search_buffer@ == if w0.search_buffer@.len() > 0 {
            w0.search_buffer@.drop_last()
        } else {
            w0.search_buffer@
        },
        _ => w1 == w0,
    }
}

/// Searches the current document from the cursor and selects the match.
pub fn search_impl(ws: &mut Workspace, order: SearchOrder)
    requires
        old(ws).wf(),
    ensures
        final(ws).wf(),
        others_unchanged(*old(ws), *final(ws)),
        search_post(old(ws).cur_doc().buffer@, final(ws).cur_doc().buffer@, old(ws).search_registry, order),
        final(ws).cur_doc().history == old(ws).cur_doc().history,
        final(ws).cur_doc().transaction == old(ws).cur_doc().transaction,
        final(ws).cur_doc().id == old(ws).cur_doc().id,
        final(ws).cur_doc().meta == old(ws).cur_doc().meta,
{
    let ghost w0 = *ws;
    proof {
        assert(w0.documents@[w0.current as int].wf());
    }
    let buf = ws.cur().buf();
    if !check_pos(buf) {
        return;
    }
    let len = buf.len_chars();
    let registry = ws.search_registry();
    if len == 0 || registry.pattern_chars() == 0 {
        return;
    }
    let next = match order {
        SearchOrder::Next => true,
        SearchOrder::Prev => false,
    };
    if next && registry.pattern_len() > len {
        return;
    }
    let pos = buf.byte_pos();
    let start_pos = if next {
        if pos < len {
            pos + 1
        } else {
            len
        }
    } else {
        if pos >= 1 {
            pos - 1
        } else {
            0
        }
    };
    let range = registry.search(buf.text(), start_pos, order);
    if let Some((start, end)) = range {
        let doc = ws.cur_mut();
        if end <= doc.buffer.len_bytes() {
            let p = doc.buffer.curs_pos(end);
            doc.buffer.set_pos(p);
            doc.buffer.new_selection(start);
            doc.buffer.update_selection(end);
        }
    }
}

/// Jumps to the next occurrence of the pattern.
pub fn search_next(ws: &mut Workspace)
    requires
        old(ws).wf(),
    ensures
        final(ws).wf(),
        others_unchanged(*old(ws), *final(ws)),
        search_post(old(ws).cur_doc().buffer@, final(ws).cur_doc().buffer@, old(ws).search_registry, SearchOrder::Next),
        final(ws).cur_doc().history == old(ws).cur_doc().history,
        final(ws).cur_doc().transaction == old(ws).cur_doc().transaction,
        final(ws).cur_doc().id == old(ws).cur_doc().id,
        final(ws).cur_doc().meta == old(ws).cur_doc().meta,
{
    search_impl(ws, SearchOrder::Next);
}

/// Jumps to the previous occurrence of the pattern.
pub fn search_prev(ws: &mut Workspace)
    requires
        old(ws).wf(),
    ensures
        final(ws).wf(),
        others_unchanged(*old(ws), *final(ws)),
        search_post(old(ws).cur_doc().buffer@, final(ws).cur_doc().buffer@, old(ws).search_registry, SearchOrder::Prev),
        final(ws).cur_doc().history == old(ws).cur_doc().history,
        final(ws).cur_doc().transaction == old(ws).cur_doc().transaction,
        final(ws).cur_doc().id == old(ws).cur_doc().id,
        final(ws).cur_doc().meta == old(ws).cur_doc().meta,
{
    search_impl(ws, SearchOrder::Prev);
}

/// Leaves search mode without searching: the typed pattern is dropped and the mode is
/// normal.
pub fn cancel_search(ws: &mut Workspace)
    requires
        old(ws).wf(),
    ensures
        final(ws).wf(),
        cancel_search_post(*old(ws), *final(ws)),
{
    ws.search_buffer.clear();
    let ghost w0 = *ws;
    proof {
        assert(w0.documents@[w0.current as int].wf());
    }
    let doc = ws.cur_mut();
    visual_to_normal_impl(&mut doc.buffer);
}

/// Makes the typed pattern the search pattern, switches to normal mode and jumps to the
/// next occurrence.
pub fn apply_search(ws: &mut Workspace)
    requires
        old(ws).wf(),
    ensures
        final(ws).wf(),
        apply_search_post(*old(ws), *final(ws)),
{
    let ghost w0 = *ws;
    ws.apply_search();
    let ghost wa = *ws;
    normal_mode(ws);
    let ghost wb = *ws;
    search_next(ws);
    proof {
        assert(pattern_applied(w0, wa));
        assert(others_unchanged(wb, *ws));
    }
}

/// Adds `ch` to the typed pattern.
pub fn insert_pattern_char(ws: &mut Workspace, ch: char)
    requires
        old(ws).wf(),
    ensures
        final(ws).wf(),
        final(ws).search_buffer@ == old(ws).search_buffer@.push(ch),
        others_kept(*old(ws), *final(ws)),
        final(ws).documents == old(ws).documents,
{
    ws.search_buffer.push(ch);
}

/// Takes the last char off the typed pattern.
pub fn remove_pattern_char(ws: &mut Workspace)
    requires
        old(ws).wf(),
    ensures
        final(ws).wf(),
        final(ws).search_buffer@ == if old(ws).search_buffer@.len() > 0 {
            old(ws).search_buffer@.drop_last()
        } else {
            old(ws).search_buffer@
        },
        others_kept(*old(ws), *final(ws)),
        final(ws).documents == old(ws).documents,
{
    ws.search_buffer.pop();
}

/// Handles a key in search mode: `Esc` cancels, `Enter` searches, a char is typed,
/// `Backspace` erases; other keys are ignored.
pub fn on_key(ws: &mut Workspace, input: Input) -> (r: EventOutcome)
    requires
        old(ws).wf(),
    ensures
        final(ws).wf(),
        r == search_key_outcome(input),
        search_key_post(*old(ws), *final(ws), input),
{
    match input.event {
        Event::Esc => cancel_search(ws),
        Event::Enter => apply_search(ws),
        Event::Char(ch) => insert_pattern_char(ws, ch),
        Event::Backspace => remove_pattern_char(ws),
        _ => return EventOutcome::Ignore,
    }
    EventOutcome::Render
}

/// Search cursor law: a search that finds a match puts the cursor on the match's last
/// char, taken as a byte index of the text, selects the match from its first char, and
/// leaves the text as it was; the match holds exactly the pattern.
pub proof fn law_search_cursor(b0: BufferView, b1: BufferView, r: SearchRegistry, order: SearchOrder)
    requires
        search_post(b0, b1, r, order),
        search_ok(b0, r, order),
        search_spec(b0.text, r.pattern(), search_from(b0, order), order) matches Some((s, e)) && e
            <= byte_len(b0.text),
    ensures
        ({
            let (s, e) = search_spec(b0.text, r.pattern(), search_from(b0, order), order)->0;
            &&& line_to_byte(b1.text, b1.index) + b1.offset == e
            &&& b1.index < len_lines(b1.text)
            &&& b1.text == b0.text
            &&& b1.selection matches Some(sel) && sel.anchor_spec() == s && sel.head_spec() == e
            &&& matches_at(b0.text, r.pattern(), s, e)
        }),
{
    let (s, e) = search_spec(b0.text, r.pattern(), search_from(b0, order), order)->0;
    lemma_byte_to_line_start(b0.text, e);
    law_search_sound(b0.text, r.pattern(), search_from(b0, order), order);
}

} // verus!
