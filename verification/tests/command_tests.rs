use duzzy::buffer::{Buffer, Mode};
use duzzy::command::clip::paste_local;
use duzzy::command::modify::{delete, delete_backspace, insert_char, new_line};
use duzzy::command::switch::{switch_line_next, switch_line_prev};
use duzzy::command::CmdType;
use duzzy::document::{Document, DocumentId};
use duzzy::editor::Workspace;
use duzzy::event::{Event, Input, Modifiers};
use duzzy::keymap::{Keymap, Keymaps};
use duzzy::movement::{shift_by_word, shift_cursor_impl, Shift, ShiftWordKind};
use ropey::Rope;

fn workspace() -> Workspace {
    let mut ws = Workspace::default();
    ws.add_doc(Document::new(DocumentId(1)));
    ws
}

#[test]
fn test_movement() {
    let mut ws = workspace();

    let buf = ws.cur_mut().buf_mut();
    let text = Rope::from("test\n\ntest");
    buf.set_text(text);

    shift_cursor_impl(&mut ws, Shift::Up(10));
    assert_eq!((0, 0), ws.cur().buf().pos());

    shift_cursor_impl(&mut ws, Shift::Bottom);
    assert_eq!((2, 0), ws.cur().buf().pos());

    shift_cursor_impl(&mut ws, Shift::Top);
    assert_eq!((0, 0), ws.cur().buf().pos());

    shift_cursor_impl(&mut ws, Shift::Right);
    assert_eq!((0, 1), ws.cur().buf().pos());

    shift_cursor_impl(&mut ws, Shift::Down(1));
    assert_eq!((1, 0), ws.cur().buf().pos());

    shift_cursor_impl(&mut ws, Shift::LineEnd);
    assert_eq!((1, 0), ws.cur().buf().pos());

    shift_cursor_impl(&mut ws, Shift::Left);
    assert_eq!((0, 4), ws.cur().buf().pos());

    shift_cursor_impl(&mut ws, Shift::Right);
    assert_eq!((1, 0), ws.cur().buf().pos());

    shift_cursor_impl(&mut ws, Shift::Right);
    assert_eq!((2, 0), ws.cur().buf().pos());

    shift_cursor_impl(&mut ws, Shift::LineEnd);
    assert_eq!((2, 3), ws.cur().buf().pos());

    shift_cursor_impl(&mut ws, Shift::Right);
    assert_eq!((2, 4), ws.cur().buf().pos());
}

#[test]
fn test_move_by_word() {
    let mut buf = Buffer::default();
    let text = Rope::from("test test test");
    buf.set_text(text);

    assert_eq!(shift_by_word(&mut buf, ShiftWordKind::NextStart), (0, 4));
    assert_eq!(shift_by_word(&mut buf, ShiftWordKind::NextEnd), (0, 3));

    buf.set_pos((0, 9));
    assert_eq!(shift_by_word(&mut buf, ShiftWordKind::NextStart), (0, 13));

    buf.set_pos((0, 3));
    assert_eq!(shift_by_word(&mut buf, ShiftWordKind::NextEnd), (0, 8));

    buf.set_pos((0, 9));
    assert_eq!(shift_by_word(&mut buf, ShiftWordKind::PrevStart), (0, 5));

    let text = Rope::from(".te?/");
    buf.set_text(text);
    buf.set_pos((0, 0));

    assert_eq!(shift_by_word(&mut buf, ShiftWordKind::NextStart), (0, 2));
    assert_eq!(shift_by_word(&mut buf, ShiftWordKind::NextEnd), (0, 2));

    buf.set_pos((0, 4));
    assert_eq!(shift_by_word(&mut buf, ShiftWordKind::PrevStart), (0, 3));

    let text = Rope::from("test\n\n\ntest");
    buf.set_text(text);
    buf.set_pos((2, 0));
    assert_eq!(shift_by_word(&mut buf, ShiftWordKind::NextStart), (3, 0));
}

#[test]
fn modify_test_adjustment() {
    let mut ws = workspace();

    insert_char(&mut ws, 't');
    insert_char(&mut ws, 'e');
    insert_char(&mut ws, 's');
    insert_char(&mut ws, 't');

    let buf = ws.cur().buf();
    assert_eq!((0, 4), buf.pos());
    assert_eq!(&buf.text().to_string(), "test");

    delete_backspace(&mut ws);
    delete_backspace(&mut ws);

    let buf = ws.cur().buf();
    assert_eq!((0, 2), buf.pos());
    assert_eq!(&buf.text().to_string(), "te");

    ws.cur_mut().buf_mut().set_pos((0, 0));
    new_line(&mut ws);
    new_line(&mut ws);
    new_line(&mut ws);
    new_line(&mut ws);

    let buf = ws.cur_mut().buf();
    assert_eq!((4, 0), buf.pos());
    assert_eq!(&buf.text().to_string(), "\n\n\n\nte");

    ws.cur_mut().commit();

    delete(&mut ws);
    delete(&mut ws);
    delete(&mut ws);

    let buf = ws.cur().buf();
    assert_eq!((4, 0), buf.pos());
    assert_eq!(&buf.text().to_string(), "\n\n\n\n");
}

#[test]
fn adjustment_test_adjustment() {
    let mut ws = workspace();

    insert_char(&mut ws, 't');
    insert_char(&mut ws, 'e');
    insert_char(&mut ws, 's');
    insert_char(&mut ws, 't');

    let buf = ws.cur().buf();
    assert_eq!((0, 4), buf.pos());
    assert_eq!(&buf.text().to_string(), "test");

    delete_backspace(&mut ws);
    delete_backspace(&mut ws);

    let buf = ws.cur().buf();
    assert_eq!((0, 2), buf.pos());
    assert_eq!(&buf.text().to_string(), "te");

    ws.cur_mut().buf_mut().set_pos((0, 0));
    new_line(&mut ws);
    new_line(&mut ws);
    new_line(&mut ws);
    new_line(&mut ws);

    let buf = ws.cur_mut().buf();
    assert_eq!((4, 0), buf.pos());
    assert_eq!(&buf.text().to_string(), "\n\n\n\nte");

    ws.cur_mut().commit();

    delete(&mut ws);
    delete(&mut ws);
    delete(&mut ws);

    let buf = ws.cur().buf();
    assert_eq!((4, 0), buf.pos());
    assert_eq!(&buf.text().to_string(), "\n\n\n\n");
}

#[test]
fn test_delete_selection() {
    let mut ws = workspace();

    let text = Rope::from_str("test \ntest");
    let buf = ws.cur_mut().buf_mut();

    buf.set_text(text);
    buf.new_selection(buf.len_chars() - 1);
    buf.update_selection(4);

    delete(&mut ws);

    assert_eq!(&ws.cur().buf().text().to_string(), "test");
}

#[test]
fn test_past_in_visual() {
    let mut ws = workspace();
    ws.clipboard().set_local("hello".to_owned());

    let text = Rope::from_str("test test\ntest");
    let buf = ws.cur_mut().buf_mut();

    buf.set_mode(Mode::Visual);
    buf.set_text(text);
    buf.new_selection(buf.len_chars() - 1);
    buf.update_selection(5);
    buf.set_pos((0, 5));

    paste_local(&mut ws);

    assert_eq!(&ws.cur().buf().text().to_string(), "test hello");
}

#[test]
fn test_switch_next() {
    let mut doc = Document::new(DocumentId(1));

    switch_line_next(&mut doc);

    doc.commit();

    switch_line_next(&mut doc);

    let buf = doc.buf();
    assert_eq!((2, 0), buf.pos());
    assert_eq!(&buf.text().to_string(), "\n\n");
}

#[test]
fn test_switch_prev() {
    let mut doc = Document::new(DocumentId(1));

    switch_line_prev(&mut doc);

    doc.commit();

    switch_line_prev(&mut doc);

    let buf = doc.buf();
    assert_eq!((0, 0), buf.pos());
    assert_eq!(&buf.text().to_string(), "\n\n");
}

#[test]
fn test_keymap() {
    let keymap = Keymaps::init();
    let normal = keymap.get(&Mode::Normal).unwrap();

    let node = normal
        .get(&Input { event: Event::Char('g'), modifiers: Modifiers::default() })
        .unwrap();

    let Keymap::Node(bindings) = node else {
        panic!("failed");
    };

    let leaf = bindings
        .get(&Input { event: Event::Char('e'), modifiers: Modifiers::default() })
        .unwrap();

    let expected = Keymap::Leaf(CmdType::GoToBottomLine);
    assert_eq!(leaf, &expected);
}
