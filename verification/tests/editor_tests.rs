use duzzy::buffer::Mode;
use duzzy::command::CmdType;
use duzzy::document::{Document, DocumentId, FileMeta, IdCounter};
use duzzy::editor::Editor;
use duzzy::event::{Event, EventOutcome, Input, Modifiers};
use duzzy::keymap::{Bindings, Keymap, Keymaps};
use duzzy::buffer::Buffer;
use duzzy::db::queries::{depth_at_most, TreeItem};
use duzzy::renderer::{render_line, text_lines, Viewport};
use duzzy::selection::{SelectionSpan, SpanKind};
use ropey::Rope;

fn run(kind: SpanKind, s: &str) -> SelectionSpan {
    SelectionSpan { kind, slice: s.chars().collect() }
}

fn key(event: Event) -> Input {
    Input { event, modifiers: Modifiers::default() }
}

fn ctrl(c: char) -> Input {
    Input { event: Event::Char(c), modifiers: Modifiers { ctr: true, alt: false, shift: false } }
}

fn type_keys(editor: &mut Editor, keys: &str) {
    for c in keys.chars() {
        editor.input(key(Event::Char(c)));
    }
}

fn text(editor: &Editor) -> String {
    editor.workspace.cur().buf().text().to_string()
}

fn leaf(bindings: &Bindings, path: &[Input]) -> Option<CmdType> {
    let mut current = bindings;
    for (i, input) in path.iter().enumerate() {
        match current.get(input)? {
            Keymap::Leaf(cmd) if i + 1 == path.len() => return Some(*cmd),
            Keymap::Node(next) => current = next,
            Keymap::Leaf(_) => return None,
        }
    }
    None
}

#[test]
fn bindings_parse_plain_and_special_keys() {
    let mut bindings = Bindings::new();
    bindings.parse("gg", CmdType::GoToTopLine);
    bindings.parse("<Space>y", CmdType::CopyGlobal);
    bindings.parse("<Ctrl>s", CmdType::SearchMode);
    bindings.parse("<Esc>", CmdType::NormalMode);

    let g = key(Event::Char('g'));
    assert_eq!(leaf(&bindings, &[g, g]), Some(CmdType::GoToTopLine));
    assert_eq!(leaf(&bindings, &[key(Event::Char(' ')), key(Event::Char('y'))]), Some(CmdType::CopyGlobal));
    assert_eq!(leaf(&bindings, &[ctrl('s')]), Some(CmdType::SearchMode));
    assert_eq!(leaf(&bindings, &[key(Event::Char('s'))]), None);
    assert_eq!(leaf(&bindings, &[key(Event::Esc)]), Some(CmdType::NormalMode));
}

#[test]
fn unknown_special_name_binds_nothing() {
    let mut bindings = Bindings::new();
    bindings.parse("<Nope>", CmdType::Undo);
    assert!(bindings.0.is_empty());
    bindings.parse("", CmdType::Undo);
    assert!(bindings.0.is_empty());
}

#[test]
fn longer_binding_replaces_a_prefix_command() {
    let mut bindings = Bindings::new();
    bindings.parse("g", CmdType::Undo);
    bindings.parse("gg", CmdType::GoToTopLine);
    let g = key(Event::Char('g'));
    assert_eq!(leaf(&bindings, &[g, g]), Some(CmdType::GoToTopLine));
    assert!(matches!(bindings.get(&g), Some(Keymap::Node(_))));
}

#[test]
fn default_keymaps_cover_normal_and_visual_mode() {
    let keymaps = Keymaps::init();
    assert!(keymaps.get(&Mode::Insert).is_none());
    assert!(keymaps.get(&Mode::Search).is_none());
    let normal = keymaps.get(&Mode::Normal).unwrap();
    assert_eq!(leaf(normal, &[key(Event::Char('u'))]), Some(CmdType::Undo));
    assert_eq!(leaf(normal, &[key(Event::Char(' ')), key(Event::Char('p'))]), Some(CmdType::PasteGlobal));
    assert_eq!(leaf(normal, &[key(Event::Esc)]), None);
    let visual = keymaps.get(&Mode::Visual).unwrap();
    assert_eq!(leaf(visual, &[key(Event::Esc)]), Some(CmdType::NormalMode));
    assert_eq!(leaf(visual, &[key(Event::Char('i'))]), None);
    assert_eq!(Keymaps::common_bindings().len(), 20);
}

#[test]
fn event_names_and_modifiers() {
    assert_eq!(Event::from_name("a"), Some(Event::Char('a')));
    assert_eq!(Event::from_name("Space"), Some(Event::Char(' ')));
    assert_eq!(Event::from_name("PageDown"), Some(Event::PageDown));
    assert_eq!(Event::from_name("esc"), None);
    assert_eq!(Event::from_name(""), None);
    assert_ne!(key(Event::Char('a')).key(), ctrl('a').key());
    assert_ne!(key(Event::Esc).key(), key(Event::Enter).key());
    assert_eq!(key(Event::Char('a')).key(), 'a' as u64);
}

#[test]
fn typing_in_insert_mode_then_undo() {
    let mut editor = Editor::new_scratch();
    assert_eq!(editor.input(key(Event::Char('i'))), EventOutcome::Render);
    assert_eq!(editor.workspace.cur().buf().mode(), Mode::Insert);

    type_keys(&mut editor, "hi");
    assert_eq!(text(&editor), "hi");
    assert_eq!(editor.workspace.cur().buf().pos(), (0, 2));

    assert_eq!(editor.input(key(Event::Esc)), EventOutcome::Render);
    assert_eq!(editor.workspace.cur().buf().mode(), Mode::Normal);

    assert_eq!(editor.input(key(Event::Char('u'))), EventOutcome::Render);
    assert_eq!(text(&editor), "");
    assert_eq!(editor.input(key(Event::Char('U'))), EventOutcome::Render);
    assert_eq!(text(&editor), "hi");
}

#[test]
fn unbound_key_in_normal_mode_is_ignored() {
    let mut editor = Editor::default();
    assert_eq!(editor.input(key(Event::Char('z'))), EventOutcome::Ignore);
    assert_eq!(text(&editor), "");
}

#[test]
fn ctrl_q_quits_insert_mode_input() {
    let mut editor = Editor::new_scratch();
    editor.input(key(Event::Char('i')));
    assert_eq!(editor.input(ctrl('q')), EventOutcome::Exit);
    assert_eq!(text(&editor), "");
}

#[test]
fn two_key_binding_runs_after_its_second_key() {
    let mut ids = IdCounter::new();
    let id = DocumentId::next(&mut ids);
    let doc = Document::from_text(id, Rope::from_str("one\ntwo\nthree"), FileMeta::default());
    let mut editor = Editor::with_document(doc);
    assert_eq!(editor.input(key(Event::Char('g'))), EventOutcome::Ignore);
    assert_eq!(editor.input(key(Event::Char('e'))), EventOutcome::Render);
    assert_eq!(editor.workspace.cur().buf().pos(), (2, 0));
    editor.input(key(Event::Char('g')));
    editor.input(key(Event::Char('g')));
    assert_eq!(editor.workspace.cur().buf().pos(), (0, 0));
}

#[test]
fn search_mode_finds_the_pattern() {
    let mut ids = IdCounter::new();
    let id = DocumentId::next(&mut ids);
    let doc = Document::from_text(id, Rope::from_str("foo bar foo"), FileMeta::default());
    let mut editor = Editor::with_document(doc);
    assert_eq!(editor.input(key(Event::Char('/'))), EventOutcome::Render);
    assert_eq!(editor.workspace.cur().buf().mode(), Mode::Search);
    type_keys(&mut editor, "bar");
    assert_eq!(editor.input(key(Event::Enter)), EventOutcome::Render);
    assert_eq!(editor.workspace.cur().buf().mode(), Mode::Normal);
    assert_eq!(editor.workspace.cur().buf().pos(), (0, 6));
    assert_eq!(editor.workspace.search_registry().pattern_chars(), 3);
    assert_eq!(editor.input(key(Event::Char('n'))), EventOutcome::Render);
    assert_eq!(editor.workspace.cur().buf().pos(), (0, 6));
}

#[test]
fn copy_and_paste_a_line() {
    let mut ids = IdCounter::new();
    let id = DocumentId::next(&mut ids);
    let doc = Document::from_text(id, Rope::from_str("ab\ncd"), FileMeta::default());
    let mut editor = Editor::with_document(doc);
    editor.input(key(Event::Char('x')));
    assert_eq!(editor.workspace.cur().buf().mode(), Mode::Visual);
    editor.input(key(Event::Char('y')));
    assert_eq!(editor.workspace.clipboard.get_local(), "ab\n");
}

#[test]
fn document_ids_count_up() {
    let mut ids = IdCounter::new();
    let a = DocumentId::next(&mut ids);
    let b = DocumentId::next(&mut ids);
    assert_eq!(a.0 + 1, b.0);
    assert_eq!(DocumentId::max().0, usize::MAX);
}

#[test]
fn cursor_is_kept_in_the_viewport() {
    let mut ids = IdCounter::new();
    let id = DocumentId::next(&mut ids);
    let doc = Document::from_text(id, Rope::from_str("abcdef\nx"), FileMeta::default());
    let mut editor = Editor::with_document(doc);
    editor.viewport.width = 3;
    editor.viewport.height = 1;
    editor.workspace.cur_mut().buf_mut().set_pos((0, 5));
    let c = editor.cursor();
    assert_eq!((c.x, c.y), (2, 0));
    assert_eq!(c.mode, Mode::Normal);
}

#[test]
fn shown_lines_mark_the_selection() {

    let mut buf = Buffer::default();
    buf.set_text(Rope::from_str("ab\ncd\n"));
    assert_eq!(buf.line(1), vec!['c', 'd', '\n']);
    let viewport = Viewport { width: 10, height: 2 };
    assert_eq!(
        text_lines(&buf, viewport),
        vec![vec![run(SpanKind::Nothing, "ab\n")], vec![run(SpanKind::Nothing, "cd\n")]]
    );

    buf.new_selection(1);
    buf.update_selection(3);
    assert_eq!(
        text_lines(&buf, viewport),
        vec![
            vec![run(SpanKind::Nothing, "a"), run(SpanKind::Selection, "b\n")],
            vec![run(SpanKind::Nothing, "cd\n")],
        ]
    );

    let tall = Viewport { width: 1, height: 10 };
    let lines = text_lines(&buf, tall);
    assert_eq!(lines.len(), 3);
    assert_eq!(lines[2], vec![run(SpanKind::Nothing, "")]);
}

#[test]
fn empty_line_under_a_selection_is_plain() {
    assert_eq!(
        render_line(0, 0, vec![], Some((0, 2))),
        vec![SelectionSpan { kind: SpanKind::Nothing, slice: vec![] }]
    );
    assert_eq!(
        render_line(0, 2, vec!['x', 'y', '\n'], None),
        vec![SelectionSpan { kind: SpanKind::Nothing, slice: vec!['x', 'y', '\n'] }]
    );
}

#[test]
fn nested_tree_depth_is_bounded() {
    let tree = vec![(
        "app".to_owned(),
        TreeItem::Schemas(vec![("public".to_owned(), TreeItem::Tables(vec!["t".to_owned()]))]),
    )];
    assert!(depth_at_most(&tree, 2));
    assert!(!depth_at_most(&tree, 1));
    assert!(depth_at_most(&Vec::new(), 0));
}

#[test]
fn binding_under_a_shared_first_key_keeps_the_others() {
    let mut bindings = Bindings::new();
    let m = Modifiers::default();
    bindings.parse_keys(m, vec!["e".to_owned(), "g".to_owned()], CmdType::GoToBottomLine);
    bindings.parse_keys(m, vec!["g".to_owned(), "g".to_owned()], CmdType::GoToTopLine);
    assert_eq!(bindings.0.len(), 1);
    let g = Input { event: Event::Char('g'), modifiers: m };
    let e = Input { event: Event::Char('e'), modifiers: m };
    assert_eq!(leaf(&bindings, &[g, e]), Some(CmdType::GoToBottomLine));
    assert_eq!(leaf(&bindings, &[g, g]), Some(CmdType::GoToTopLine));

    bindings.parse("gl", CmdType::GoToLineEnd);
    bindings.parse("x", CmdType::SelectLine);
    assert_eq!(leaf(&bindings, &[g, e]), Some(CmdType::GoToBottomLine));
    assert_eq!(leaf(&bindings, &[g, key(Event::Char('l'))]), Some(CmdType::GoToLineEnd));
    assert_eq!(leaf(&bindings, &[key(Event::Char('x'))]), Some(CmdType::SelectLine));
}

#[test]
fn special_names_are_found_between_angle_brackets() {
    let mut bindings = Bindings::new();
    bindings.parse("a<Enter>b", CmdType::Undo);
    let path = [key(Event::Char('a')), key(Event::Enter), key(Event::Char('b'))];
    assert_eq!(leaf(&bindings, &path), Some(CmdType::Undo));

    let mut shifted = Bindings::new();
    shifted.parse("<Shift><Tab>", CmdType::Redo);
    let tab = Input { event: Event::Tab, modifiers: Modifiers { ctr: false, alt: false, shift: true } };
    assert_eq!(leaf(&shifted, &[tab]), Some(CmdType::Redo));
}
