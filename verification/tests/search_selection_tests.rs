use duzzy::search::{SearchOrder, SearchRegistry};
use duzzy::selection::{selection_spans, Selection, SelectionSpan, SpanIterator, SpanKind};
use ropey::Rope;

fn chars(s: &str) -> Vec<char> {
    s.chars().collect()
}

fn span(kind: SpanKind, s: &str) -> SelectionSpan {
    SelectionSpan { kind, slice: chars(s) }
}

#[test]
fn test_search_next_single_line() {
    let text = Rope::from_str("lotestlol");
    let registry = SearchRegistry::new("lo".into());

    assert_eq!(registry.search(&text, 0, SearchOrder::Next), Some((0, 1)));
    assert_eq!(registry.search(&text, 3, SearchOrder::Next), Some((6, 7)));
    assert_eq!(registry.search(&text, 7, SearchOrder::Next), None);

    let registry = SearchRegistry::new("test".into());

    assert_eq!(registry.search(&text, 0, SearchOrder::Next), Some((2, 5)));
    assert_eq!(registry.search(&text, 4, SearchOrder::Next), None);
}

#[test]
fn test_search_next_multiple_line() {
    let text = Rope::from_str("foo line1\nbar line2");
    let registry = SearchRegistry::new("line".into());

    assert_eq!(registry.search(&text, 0, SearchOrder::Next), Some((4, 7)));
    assert_eq!(registry.search(&text, 6, SearchOrder::Next), Some((14, 17)));
}

#[test]
fn test_search_prev_multiple_line() {
    let text = Rope::from_str("foo \n loo\n boo");
    let registry = SearchRegistry::new("oo".into());

    assert_eq!(registry.search(&text, 11, SearchOrder::Prev), Some((7, 8)));
    assert_eq!(registry.search(&text, 6, SearchOrder::Prev), Some((1, 2)));
    assert_eq!(registry.search(&text, 1, SearchOrder::Prev), None);

    let text = Rope::from_str("foo line1\nbar line2");
    let registry = SearchRegistry::new("line".into());

    assert_eq!(registry.search(&text, 18, SearchOrder::Prev), Some((14, 17)));
    assert_eq!(registry.search(&text, 15, SearchOrder::Prev), Some((4, 7)));
}

#[test]
fn search_start_past_the_end_starts_at_the_last_char() {
    let text = Rope::from_str("abcab");
    let registry = SearchRegistry::new("ab".into());
    assert_eq!(registry.search(&text, 100, SearchOrder::Prev), Some((3, 4)));
}

#[test]
fn search_reports_the_pattern() {
    let registry = SearchRegistry::new("héllo".into());
    assert_eq!(registry.pattern_chars(), 5);
    assert_eq!(registry.pattern_len(), 6);
    let empty = SearchRegistry::default();
    assert_eq!(empty.pattern_chars(), 0);
    assert_eq!(empty.pattern_len(), 0);
}

#[test]
fn test_select_all() {
    let text = Rope::from_str("test test");

    let mut selection = Selection::new(0);
    selection.update(text.len_chars() - 1);

    let mut iter = SpanIterator::new(chars(&text.to_string()), selection.range());

    assert_eq!(iter.next(), Some(span(SpanKind::Selection, "test test")));

    assert_eq!(iter.next(), None,);
}

#[test]
fn test_select_slice() {
    let text = Rope::from_str("test test");

    let mut selection = Selection::new(3);
    selection.update(6);

    let mut iter = SpanIterator::new(chars(&text.to_string()), selection.range());

    assert_eq!(iter.next(), Some(span(SpanKind::Nothing, "tes")));
    assert_eq!(iter.next(), Some(span(SpanKind::Selection, "t te")));
    assert_eq!(iter.next(), Some(span(SpanKind::Nothing, "st")));
    assert_eq!(iter.next(), None,);

    let mut selection = Selection::new(3);
    selection.update(2);

    let mut iter = SpanIterator::new(chars(&text.to_string()), selection.range());

    assert_eq!(iter.next(), Some(span(SpanKind::Nothing, "te")));
    assert_eq!(iter.next(), Some(span(SpanKind::Selection, "st")));
    assert_eq!(iter.next(), Some(span(SpanKind::Nothing, " test")));
    assert_eq!(iter.next(), None,);
}

#[test]
fn test_selection_spans() {
    let text = Rope::from_str("test test\ntest line 2");
    let selection = (3, 14);

    let line = text.line(0);
    let line_idx = text.line_to_char(0);
    let max_len = line.len_chars() - 1;
    let line: Vec<char> = line.chars().collect();
    let spans = selection_spans(line_idx, max_len, line, selection);
    let mut spans = spans.into_iter();

    assert_eq!(spans.len(), 2);
    assert_eq!(spans.next(), Some(span(SpanKind::Nothing, "tes")));
    assert_eq!(spans.next(), Some(span(SpanKind::Selection, "t test\n")));

    let line = text.line(1);
    let line_idx = text.line_to_char(1);
    let max_len = line.len_chars();
    let line: Vec<char> = line.chars().collect();
    let spans = selection_spans(line_idx, max_len, line, selection);
    let mut spans = spans.into_iter();

    assert_eq!(spans.len(), 2);
    assert_eq!(spans.next(), Some(span(SpanKind::Selection, "test ")));
    assert_eq!(spans.next(), Some(span(SpanKind::Nothing, "line 2")));
}

#[test]
fn selection_orders_its_ends() {
    let mut selection = Selection::new(7);
    assert_eq!(selection.range(), (7, 7));
    selection.update(2);
    assert_eq!(selection.start(), 2);
    assert_eq!(selection.end(), 7);
    assert_eq!(selection.range(), (2, 7));
    selection.update(9);
    assert_eq!(selection.range(), (7, 9));
}

#[test]
fn selection_slice_takes_both_ends() {
    let text = Rope::from_str("hello world");
    let mut selection = Selection::new(6);
    selection.update(10);
    assert_eq!(selection.slice(&text), chars("world"));
}

#[test]
fn selected_line_break_alone_shows_as_a_space() {
    let text = Rope::from_str("ab\n\ncd");
    let line = text.line(1);
    let line_idx = text.line_to_char(1);
    let max_len = line.len_chars();
    let line: Vec<char> = line.chars().collect();
    let spans = selection_spans(line_idx, max_len, line, (0, 5));
    assert_eq!(spans, vec![span(SpanKind::Selection, " ")]);
}

#[test]
fn line_outside_the_selection_has_no_span() {
    let text = Rope::from_str("ab\ncd");
    let line = text.line(1);
    let line_idx = text.line_to_char(1);
    let max_len = line.len_chars();
    let line: Vec<char> = line.chars().collect();
    let spans = selection_spans(line_idx, max_len, line, (0, 1));
    assert_eq!(spans, Vec::<SelectionSpan>::new());
}
