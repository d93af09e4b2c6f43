use duzzy::history::History;
use duzzy::transaction::Transaction;
use ropey::Rope;

#[test]
fn test_transaction() {
    let mut text = Rope::new();

    {
        let mut tx = Transaction::new();
        tx.insert_char(0, 't');
        tx.insert_char(1, 'e');
        tx.insert_char(2, 's');
        tx.insert_char(3, 't');
        tx.apply(&mut text);

        assert_eq!(&text.to_string(), "test");
    }

    {
        let mut tx = Transaction::new();

        tx.delete_char(3, 't');
        tx.delete_char(2, 's');
        tx.shift();
        tx.shift();
        tx.insert_char(0, ' ');
        tx.shift();
        tx.insert_char(0, 't');
        tx.insert_char(1, 'e');
        tx.apply(&mut text);

        assert_eq!(&text.to_string(), "te te");
    }
}

#[test]
fn test_history_empty_commit() {
    let mut history = History::default();
    let mut text = Rope::new();

    let mut tx = Transaction::new();
    tx.insert_str(0, "test");
    tx.delete_char(3, 't');
    tx.delete_char(2, 's');
    tx.delete_char(1, 'e');
    tx.delete_char(0, 't');
    tx.apply(&mut text);

    history.commit(tx);

    let expected = text.to_string();

    let pos = history.undo(&mut text);
    assert_eq!(Some(0), pos);
    assert_eq!(&expected, "");

    let pos = history.redo(&mut text);
    assert_eq!(Some(0), pos);
    assert_eq!(&expected, "");
}

#[test]
fn test_history_undo() {
    let mut history = History::default();
    let mut text = Rope::new();

    let mut tx = Transaction::new();
    tx.insert_str(0, "test");
    tx.apply(&mut text);
    history.commit(tx);
    assert_eq!(&text.to_string(), "test");

    let mut tx = Transaction::new();
    tx.insert_str(4, "test");
    tx.delete_str(8, "testtest");

    tx.apply(&mut text);
    history.commit(tx);
    assert_eq!(&text.to_string(), "");

    let pos = history.undo(&mut text);
    assert_eq!(Some(4), pos);
    assert_eq!(&text.to_string(), "test");

    let pos = history.redo(&mut text);
    assert_eq!(Some(0), pos);
    assert_eq!(&text.to_string(), "");
}

#[test]
fn inverse_undoes_a_transaction() {
    let mut text = Rope::from_str("hello world");
    let before = text.to_string();

    let mut tx = Transaction::new();
    tx.insert_str(5, ",");
    tx.shift();
    tx.delete_str(12, "world");
    tx.insert_str(7, "there");
    tx.apply(&mut text);
    assert_eq!(&text.to_string(), "hello, there");

    tx.inverse().apply(&mut text);
    assert_eq!(text.to_string(), before);
}

#[test]
fn shift_is_recorded_once() {
    let mut tx = Transaction::new();
    tx.shift();
    tx.shift();
    tx.insert_char(0, 'a');
    tx.shift();
    tx.insert_char(0, 'b');
    let mut text = Rope::new();
    tx.apply(&mut text);
    assert_eq!(&text.to_string(), "ba");
    assert_eq!(tx.positions(), Some((0, 0)));
}

#[test]
fn merge_joins_adjacent_insertions() {
    let mut first = Transaction::new();
    first.insert_str(0, "ab");
    let mut second = Transaction::new();
    second.insert_str(2, "cd");
    first.merge(second);

    let mut text = Rope::new();
    first.apply(&mut text);
    assert_eq!(&text.to_string(), "abcd");
    assert_eq!(first.positions(), Some((0, 0)));
}

#[test]
fn fit_length_counts_the_text_after_the_edits() {
    let mut tx = Transaction::new();
    tx.insert_str(0, "abc");
    tx.delete_str(3, "c");
    assert_eq!(tx.fit_length(0), Some(2));
    assert!(tx.fits(0));

    let mut out_of_text = Transaction::new();
    out_of_text.insert_char(5, 'x');
    assert_eq!(out_of_text.fit_length(4), None);
    assert!(!out_of_text.fits(4));
    assert_eq!(out_of_text.fit_length(5), Some(6));
}

#[test]
fn positions_skip_moves() {
    let mut tx = Transaction::new();
    assert_eq!(tx.positions(), None);
    tx.shift();
    assert_eq!(tx.positions(), None);
    tx.insert_char(3, 'x');
    tx.shift();
    tx.delete_char(7, 'y');
    tx.shift();
    assert_eq!(tx.positions(), Some((3, 7)));
}

#[test]
fn undo_after_commit_restores_the_text() {
    let mut history = History::new(10);
    let mut text = Rope::from_str("abc");

    let mut tx = Transaction::new();
    tx.insert_str(3, "def");
    tx.apply(&mut text);
    history.commit(tx);
    assert_eq!(&text.to_string(), "abcdef");

    assert_eq!(history.undo(&mut text), Some(3));
    assert_eq!(&text.to_string(), "abc");
    assert_eq!(history.undo(&mut text), None);
    assert_eq!(&text.to_string(), "abc");

    assert_eq!(history.redo(&mut text), Some(3));
    assert_eq!(&text.to_string(), "abcdef");
    assert_eq!(history.redo(&mut text), None);
}

#[test]
fn commit_of_moves_only_is_dropped() {
    let mut history = History::new(10);
    let mut tx = Transaction::new();
    tx.shift();
    history.commit(tx);
    let mut text = Rope::from_str("x");
    assert!(!history.undo_fits(1));
    assert_eq!(history.undo(&mut text), None);
}

#[test]
fn commit_drops_the_redoable_commits() {
    let mut history = History::new(10);
    let mut text = Rope::new();

    let mut tx = Transaction::new();
    tx.insert_str(0, "a");
    tx.apply(&mut text);
    history.commit(tx);
    assert_eq!(history.undo(&mut text), Some(0));
    assert!(history.redo_fits(0));

    let mut tx = Transaction::new();
    tx.insert_str(0, "b");
    tx.apply(&mut text);
    history.commit(tx);
    assert!(!history.redo_fits(1));
    assert_eq!(history.redo(&mut text), None);
    assert_eq!(&text.to_string(), "b");
}

#[test]
fn full_history_forgets_its_oldest_commit() {
    let mut history = History::new(1);
    let mut text = Rope::new();
    for ch in ['a', 'b'] {
        let mut tx = Transaction::new();
        tx.insert_char(0, ch);
        tx.apply(&mut text);
        history.commit(tx);
    }
    assert_eq!(&text.to_string(), "ba");
    assert_eq!(history.undo(&mut text), Some(0));
    assert_eq!(&text.to_string(), "a");
    assert_eq!(history.undo(&mut text), None);
    assert_eq!(&text.to_string(), "a");
}

#[test]
fn commit_in_a_full_history_with_something_to_redo_keeps_the_undo_depth() {
    let mut history = History::new(2);
    let mut text = Rope::new();
    for (pos, ch) in [(0, 'a'), (1, 'b')] {
        let mut tx = Transaction::new();
        tx.insert_char(pos, ch);
        tx.apply(&mut text);
        history.commit(tx);
    }
    assert_eq!(history.undo(&mut text), Some(1));
    assert_eq!(&text.to_string(), "a");

    let mut tx = Transaction::new();
    tx.insert_char(1, 'c');
    tx.apply(&mut text);
    history.commit(tx);
    assert!(!history.redo_fits(2));

    assert_eq!(history.undo(&mut text), Some(1));
    assert_eq!(&text.to_string(), "a");
    assert_eq!(history.undo(&mut text), None);
    assert_eq!(&text.to_string(), "a");
}
