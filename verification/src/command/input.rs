//! Keys in insert mode.
use vstd::prelude::*;
use crate::command::modify::{
    backspace_post, delete_backspace, insert_char, insert_char_post, new_line, new_line_post,
    others_unchanged,
};
use crate::command::switch::{normal_mode, normal_mode_post};
use crate::editor::Workspace;
use crate::event::{Event, EventOutcome, Input};
use crate::movement::{
    go_to_bottom_line, go_to_top_line, move_down, move_left, move_right, move_up, shift_doc_post,
    Shift,
};

verus! {

/// Whether the input is `Ctrl-q`, which quits.
pub open spec fn is_quit(input: Input) -> bool {
    input.event == Event::Char('q') && input.modifiers.ctr
}

/// What a key in insert mode answers.
pub open spec fn input_outcome(input: Input) -> EventOutcome {
    if is_quit(input) {
        EventOutcome::Exit
    } else {
        match input.event {
            Event::Char(_) | Event::Esc | Event::Left | Event::Right | Event::Up | Event::Down
            | Event::Backspace | Event::Enter | Event::PageUp | Event::PageDown => EventOutcome::Render,
            _ => EventOutcome::Ignore,
        }
    }
}

/// The workspace after a key in insert mode: only the current document changes, and
/// as the key's command does.
pub open spec fn insert_key_post(w0: Workspace, w1: Workspace, input: Input) -> bool {
    let d0 = w0.cur_doc();
    let d1 = w1.cur_doc();
    &&& others_unchanged(w0, w1)
    &&& if is_quit(input) {
        d1 == d0
    } else {
        match input.event {
            Event::Char(c) => insert_char_post(d0, d1, c),
            Event::Esc => normal_mode_post(d0, d1),
            Event::Left => shift_doc_post(d0, d1, Shift::Left),
            Event::Right => shift_doc_post(d0, d1, Shift::Right),
            Event::Up => shift_doc_post(d0, d1, Shift::Up(1)),
            Event::Down => shift_doc_post(d0, d1, Shift::Down(1)),
            Event::Backspace => backspace_post(d0, d1),
            Event::Enter => new_line_post(d0, d1),
            Event::PageUp => shift_doc_post(d0, d1, Shift::Top),
            Event::PageDown => shift_doc_post(d0, d1, Shift::Bottom),
            _ => d1 == d0,
        }
    }
}

/// Handles a key in insert mode: `Ctrl-q` quits, a char is typed, `Esc` leaves insert
/// mode, arrows and page keys move, `Backspace` erases and `Enter` breaks the line.
pub fn on_key(ws: &mut Workspace, input: Input) -> (r: EventOutcome)
    requires
        old(ws).wf(),
    ensures
        final(ws).wf(),
        r == input_outcome(input),
        insert_key_post(*old(ws), *final(ws), input),
{
    if let Event::Char(c) = input.event {
        if c == 'q' && input.modifiers.ctr {
            return EventOutcome::Exit;
        }
    }
    match input.event {
        Event::Char(ch) => insert_char(ws, ch),
        Event::Esc => normal_mode(ws),
        Event::Left => move_left(ws),
        Event::Right => move_right(ws),
        Event::Up => move_up(ws),
        Event::Down => move_down(ws),
        Event::Backspace => delete_backspace(ws),
        Event::Enter => new_line(ws),
        Event::PageUp => go_to_top_line(ws),
        Event::PageDown => go_to_bottom_line(ws),
        _ => return EventOutcome::Ignore,
    }
    EventOutcome::Render
}

} // verus!
