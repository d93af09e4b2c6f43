use duzzy::conn_config::ConnConfigBuilder as WideConnConfigBuilder;
use duzzy::db::config::{decimal_chars, format_default_name, ConnConfigBuilder};
use duzzy::db::connection::ConnectionConfig;
use duzzy::db::queries::{draw_tree, DatabaseTree as NestedTree, TreeItem as NestedItem};
use duzzy::db::tree::{DatabaseTree, TreeItem, TreeItemKind, TreeRow};
use duzzy::db::types::DatabaseRow;
use duzzy::event::{Event, EventOutcome, Input, Modifiers};
use duzzy::widgets::{
    AppEventOutcome, ConnListWidget, ConnStep, ConnectionsWidget,
    DatabaseTreeWidget, DbTreeWidget, DuzzyList,
};

fn key(event: Event) -> Input {
    Input { event, modifiers: Modifiers::default() }
}

fn row(database: &str, schema: &str, tables: &[&str]) -> TreeRow {
    TreeRow {
        database: database.to_owned(),
        schema: schema.to_owned(),
        tables: tables.iter().map(|t| t.to_string()).collect(),
    }
}

fn unnamed(user: &str, host: &str, port: u16) -> ConnectionConfig {
    ConnectionConfig {
        name: None,
        host: host.to_owned(),
        port,
        dbname: None,
        user: user.to_owned(),
        password: None,
    }
}

#[test]
fn decimal_digits_of_a_number() {
    assert_eq!(decimal_chars(0), vec!['0']);
    assert_eq!(decimal_chars(5432), vec!['5', '4', '3', '2']);
    assert_eq!(decimal_chars(u64::MAX).iter().collect::<String>(), u64::MAX.to_string());
}

#[test]
fn default_name_joins_user_host_and_port() {
    assert_eq!(format_default_name("postgres", "localhost", 5432), "postgres@localhost:5432");
    assert_eq!(format_default_name("", "", 0), "@:0");
}

#[test]
fn builder_fills_in_the_defaults() {
    let conf = ConnConfigBuilder::new().build();
    assert_eq!(conf.name(), "postgres@localhost:5432");
    assert_eq!(conf.host(), "localhost");
    assert_eq!(conf.port(), 5432);
    assert_eq!(conf.user(), "postgres");
    assert_eq!(conf.db(), &None);
    assert_eq!(conf.password(), &None);
}

#[test]
fn builder_keeps_what_was_given() {
    let conf = ConnConfigBuilder::new()
        .host("db.example".to_owned())
        .port(6543)
        .user("foo".to_owned())
        .db("bar".to_owned())
        .password("pw".to_owned())
        .build();
    assert_eq!(conf.name(), "foo@db.example:6543");
    assert_eq!(conf.db(), &Some("bar".to_owned()));

    let named = ConnConfigBuilder::new().name("main".to_owned()).build();
    assert_eq!(named.name(), "main");

    let settings = conf.to_pg_settings();
    assert_eq!(settings.user.as_deref(), Some("foo"));
    assert_eq!(settings.dbname.as_deref(), Some("bar"));
    assert_eq!(settings.application_name.as_deref(), Some("foo@db.example:6543"));
    assert_eq!(settings.host.as_deref(), Some("db.example"));
    assert_eq!(settings.port, Some(6543));
    assert_eq!(settings.connect_timeout_secs, Some(5));
    assert_eq!(settings.keepalives, Some(true));
}

#[test]
fn wide_port_builder_fills_in_the_defaults() {
    let conf = WideConnConfigBuilder::new().port(70000).build();
    assert_eq!(conf.name(), "postgres@localhost:70000");
    assert_eq!(conf.port(), 70000);
    assert_eq!(conf.user(), "postgres");
    let named = WideConnConfigBuilder::new().name("x".to_owned()).user("u".to_owned()).build();
    assert_eq!(named.name(), "x");
    assert_eq!(named.user(), "u");
    assert_eq!(named.host(), "localhost");
}

#[test]
fn connection_shows_its_name_or_its_url() {
    let conf = unnamed("foo", "localhost", 5432);
    assert_eq!(conf.display_name(), "postgres://foo:@localhost:5432");

    let mut named = unnamed("foo", "localhost", 5432);
    named.name = Some("prod".to_owned());
    assert_eq!(named.display_name(), "prod");

    let settings = named.to_pg_settings();
    assert_eq!(settings.application_name.as_deref(), Some("prod"));
    assert_eq!(settings.user.as_deref(), Some("foo"));
    assert_eq!(settings.connect_timeout_secs, Some(5));
}

#[test]
fn tree_of_rows_lists_each_database_once() {
    let tree = DatabaseTree::from_rows(vec![
        row("app", "public", &["users", "posts"]),
        row("app", "audit", &["log"]),
        row("other", "public", &[]),
    ]);
    let names: Vec<&str> = tree.0.iter().map(|t| t.name.as_str()).collect();
    assert_eq!(names, vec!["app", "public", "users", "posts", "audit", "log", "other", "public"]);
    let indents: Vec<u8> = tree.0.iter().map(|t| t.indent).collect();
    assert_eq!(indents, vec![0, 4, 8, 8, 4, 8, 0, 4]);
    assert_eq!(tree.0[2].kind, TreeItemKind::Table { schema: 1, database: 0 });
    assert_eq!(tree.0[5].kind, TreeItemKind::Table { schema: 4, database: 0 });
    assert_eq!(tree.0[7].kind, TreeItemKind::Schema { collapsed: false, database: 6 });
    assert!(tree.0[0].is_database() && tree.0[1].is_schema() && tree.0[2].is_table());
}

#[test]
fn collapsing_hides_what_lies_below() {
    let mut tree = DatabaseTree::from_rows(vec![row("app", "public", &["users"])]);
    assert!(tree.is_visible(0) && tree.is_visible(1) && tree.is_visible(2));

    tree.set_collapse(1, true);
    assert!(tree.0[1].is_collapsed());
    assert!(tree.is_visible(1));
    assert!(!tree.is_visible(2));

    tree.set_collapse(1, false);
    tree.set_collapse(0, true);
    assert!(tree.is_visible(0));
    assert!(!tree.is_visible(1));
    assert!(!tree.is_visible(2));

    tree.set_collapse(2, false);
    assert!(tree.0[2].is_collapsed());
}

#[test]
fn tree_items_start_open() {
    let db = TreeItem::database("d".to_owned());
    assert_eq!(db.indent, 0);
    assert!(!db.is_collapsed());
    let schema = TreeItem::schema("s".to_owned(), 0);
    assert_eq!(schema.indent, 4);
    let table = TreeItem::table("t".to_owned(), 1, 0);
    assert_eq!(table.indent, 8);
    assert!(table.is_collapsed());
    let empty = DatabaseTree::new();
    assert!(empty.0.is_empty());
}

#[test]
fn tree_pane_draws_the_shown_items() {
    let mut widget = DbTreeWidget {
        inner: DatabaseTree::from_rows(vec![row("app", "public", &["users", "posts"])]),
    };
    assert_eq!(
        widget.lines(),
        vec!["└── app", "    └── public", "        ├── users", "        └── posts"]
    );
    widget.inner.set_collapse(1, true);
    assert_eq!(widget.lines(), vec!["└── app", "    └── public"]);
}

#[test]
fn nested_tree_draws_each_level_further_in() {
    let mut tree = NestedTree::new();
    tree.insert(
        "app".to_owned(),
        NestedItem::Schemas(vec![(
            "public".to_owned(),
            NestedItem::Tables(vec!["users".to_owned(), "posts".to_owned()]),
        )]),
    );
    let lines = draw_tree(0, Vec::new(), &tree.0);
    assert_eq!(
        lines,
        vec!["└── app", "    └── public", "        ├── users", "        ├── posts"]
    );

    tree.insert("app".to_owned(), NestedItem::Tables(vec![]));
    assert_eq!(tree.0.len(), 1);
    let widget = DatabaseTreeWidget { tree };
    assert_eq!(widget.lines(), vec!["└── app"]);
}

#[test]
fn tree_panes_leave_on_q_and_escape() {
    let mut widget = DbTreeWidget { inner: DatabaseTree::new() };
    assert!(matches!(widget.input::<()>(key(Event::Char('q'))), AppEventOutcome::Outcome(EventOutcome::Exit)));
    assert!(matches!(widget.input::<()>(key(Event::Esc)), AppEventOutcome::Outcome(EventOutcome::Exit)));
    assert!(matches!(widget.input::<()>(key(Event::Char('j'))), AppEventOutcome::Outcome(EventOutcome::Ignore)));
    let mut nested = DatabaseTreeWidget { tree: NestedTree::new() };
    assert!(matches!(nested.input::<()>(key(Event::Esc)), AppEventOutcome::Outcome(EventOutcome::Exit)));
    assert!(matches!(nested.input::<()>(key(Event::Enter)), AppEventOutcome::Outcome(EventOutcome::Ignore)));
}

#[test]
fn selection_wraps_around() {
    let mut widget = ConnectionsWidget::new(vec![
        unnamed("a", "h", 1),
        unnamed("b", "h", 2),
        unnamed("c", "h", 3),
    ]);
    widget.selected = Some(2);
    widget.next_connection();
    assert_eq!(widget.selected, Some(0));
    widget.next_connection();
    assert_eq!(widget.selected, Some(1));
    widget.selected = Some(0);
    widget.prev_connection();
    assert_eq!(widget.selected, Some(2));
    widget.prev_connection();
    assert_eq!(widget.selected, Some(1));
    widget.selected = None;
    widget.next_connection();
    assert_eq!(widget.selected, None);
    widget.prev_connection();
    assert_eq!(widget.selected, None);
}

#[test]
fn connection_list_moves_and_connects() {
    let mut widget = ConnectionsWidget::new(vec![
        unnamed("a", "h1", 1),
        unnamed("b", "h2", 2),
    ]);
    assert_eq!(widget.selected, Some(0));
    assert_eq!(widget.lines(), vec!["postgres://a:@h1:1", "postgres://b:@h2:2"]);

    assert!(matches!(widget.input(key(Event::Char('k'))), ConnStep::Outcome(EventOutcome::Render)));
    assert_eq!(widget.selected, Some(1));
    assert!(matches!(widget.input(key(Event::Down)), ConnStep::Outcome(EventOutcome::Render)));
    assert_eq!(widget.selected, Some(0));
    assert!(matches!(widget.input(key(Event::Enter)), ConnStep::Connect(0)));
    assert!(matches!(widget.input(key(Event::Char('x'))), ConnStep::Outcome(EventOutcome::Ignore)));
    assert!(matches!(widget.input(key(Event::Char('q'))), ConnStep::Outcome(EventOutcome::Exit)));

    widget.next_connection();
    assert_eq!(widget.selected, Some(1));
    widget.prev_connection();
    assert_eq!(widget.selected, Some(0));

    let mut empty = ConnectionsWidget::new(vec![]);
    assert_eq!(empty.selected, None);
    assert_eq!(empty.select_connection(), None);
    assert!(matches!(empty.input(key(Event::Char('l'))), ConnStep::Outcome(EventOutcome::Render)));
}

#[test]
fn configured_connection_list_shows_names() {
    let mut widget = ConnListWidget::new(vec![
        ConnConfigBuilder::new().build(),
        ConnConfigBuilder::new().name("second".to_owned()).build(),
    ]);
    assert_eq!(widget.length(), 2);
    assert_eq!(widget.lines(), vec!["postgres@localhost:5432", "second"]);
    assert!(matches!(widget.input(key(Event::Up)), ConnStep::Outcome(EventOutcome::Render)));
    assert!(matches!(widget.input(key(Event::Right)), ConnStep::Connect(1)));
    assert!(matches!(widget.input(key(Event::Esc)), ConnStep::Outcome(EventOutcome::Exit)));
    widget.next();
    assert_eq!(widget.selected, Some(0));
    widget.prev();
    assert_eq!(widget.selected, Some(1));
}

#[test]
fn outcome_becomes_an_app_outcome() {
    let o: AppEventOutcome<()> = AppEventOutcome::from_outcome(EventOutcome::Render);
    assert!(matches!(o, AppEventOutcome::Outcome(EventOutcome::Render)));
}

#[test]
fn database_row_gives_its_name() {
    let r = DatabaseRow("postgres".to_owned());
    assert_eq!(r.as_str(), "postgres");
}
