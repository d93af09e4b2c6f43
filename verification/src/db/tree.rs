//! The tree of databases, schemas and tables, kept as a list in display order where
//! each schema and table refers to its database and schema by index.
use vstd::prelude::*;
use crate::chars::{chars_to_string, str_chars};

verus! {

/// Indent of one level of the tree, in cells.
pub const DEFAULT_INDENT: u8 = 4;

/// What an item of the tree is: a database, a schema of a database, or a table of a
/// schema; parents are given by their index in the tree.
#[derive(Debug, Clone, Copy, PartialEq, Eq, Structural)]
pub enum TreeItemKind {
    Database { collapsed: bool },
    Schema { collapsed: bool, database: usize },
    Table { schema: usize, database: usize },
}

/// An item of the tree: its indent, its name and what it is.
#[derive(Debug)]
pub struct TreeItem {
    pub indent: u8,
    pub name: String,
    pub kind: TreeItemKind,
}

/// An item as a mathematical value.
pub type ItemView = (u8, Seq<char>, TreeItemKind);

impl View for TreeItem {
    type V = ItemView;

    open spec fn view(&self) -> ItemView {
        (self.indent, self.name@, self.kind)
    }
}

/// Whether an item of kind `k` counts as collapsed: a table always does.
pub open spec fn kind_collapsed(k: TreeItemKind) -> bool {
    match k {
        TreeItemKind::Database { collapsed } => collapsed,
        TreeItemKind::Schema { collapsed, .. } => collapsed,
        TreeItemKind::Table { .. } => true,
    }
}

/// Whether the item of kind `k` is shown in `tree`: a database always, a schema when its
/// database is open, a table when its schema and its database are open.
pub open spec fn kind_visible(tree: Seq<ItemView>, k: TreeItemKind) -> bool {
    match k {
        TreeItemKind::Database { .. } => true,
        TreeItemKind::Schema { database, .. } => !kind_collapsed(tree[database as int].2),
        TreeItemKind::Table { schema, database } => !kind_collapsed(tree[schema as int].2)
            && !kind_collapsed(tree[database as int].2),
    }
}

/// Every schema and table refers to items before it of the right kinds, a table's
/// schema belonging to the table's database.
pub open spec fn tree_wf(tree: Seq<ItemView>) -> bool {
    forall|i: int| 0 <= i < tree.len() ==> #[trigger] item_wf(tree, i)
}

/// The item at `i` refers to items before it of the right kinds.
pub open spec fn item_wf(tree: Seq<ItemView>, i: int) -> bool {
    match tree[i].2 {
        TreeItemKind::Database { .. } => true,
        TreeItemKind::Schema { database, .. } => database < i && tree[database as int].2 is Database,
        TreeItemKind::Table { schema, database } => {
            &&& schema < i
            &&& database < schema
            &&& tree[database as int].2 is Database
            &&& tree[schema as int].2 matches TreeItemKind::Schema { database: d, .. } && d == database
        },
    }
}

impl TreeItem {
    /// An open database.
    pub fn database(name: String) -> (t: Self)
        ensures
            t@ == (0u8, name@, TreeItemKind::Database { collapsed: false }),
    {
        TreeItem { name, indent: 0, kind: TreeItemKind::Database { collapsed: false } }
    }

    /// An open schema of the database at index `database`.
    pub fn schema(name: String, database: usize) -> (t: Self)
        ensures
            t@ == (DEFAULT_INDENT, name@, TreeItemKind::Schema { collapsed: false, database }),
    {
        TreeItem { name, indent: DEFAULT_INDENT, kind: TreeItemKind::Schema { database, collapsed: false } }
    }

    /// A table of the schema at index `schema` of the database at index `database`.
    pub fn table(name: String, schema: usize, database: usize) -> (t: Self)
        ensures
            t@ == ((DEFAULT_INDENT * 2) as u8, name@, TreeItemKind::Table { schema, database }),
    {
        TreeItem { name, indent: DEFAULT_INDENT * 2, kind: TreeItemKind::Table { schema, database } }
    }

    /// Whether the item is a database.
    pub fn is_database(&self) -> (b: bool)
        ensures
            b == self.kind is Database,
    {
        matches!(self.kind, TreeItemKind::Database { .. })
    }

    /// Whether the item is a schema.
    pub fn is_schema(&self) -> (b: bool)
        ensures
            b == self.kind is Schema,
    {
        matches!(self.kind, TreeItemKind::Schema { .. })
    }

    /// Whether the item is a table.
    pub fn is_table(&self) -> (b: bool)
        ensures
            b == self.kind is Table,
    {
        matches!(self.kind, TreeItemKind::Table { .. })
    }

    /// Whether the item is collapsed; a table always is.
    pub fn is_collapsed(&self) -> (b: bool)
        ensures
            b == kind_collapsed(self.kind),
    {
        match self.kind {
            TreeItemKind::Database { collapsed } => collapsed,
            TreeItemKind::Schema { collapsed, .. } => collapsed,
            TreeItemKind::Table { .. } => true,
        }
    }

    /// Collapses or opens a database or schema; a table stays as it is.
    pub fn set_collapse(&mut self, collapse: bool)
        ensures
            final(self).indent == old(self).indent,
            final(self).name@ == old(self).name@,
            final(self).kind == match old(self).kind {
                TreeItemKind::Database { .. } => TreeItemKind::Database { collapsed: collapse },
                TreeItemKind::Schema { database, .. } => TreeItemKind::Schema { collapsed: collapse, database },
                k => k,
            },
    {
        match &mut self.kind {
            TreeItemKind::Database { collapsed } => {
                *collapsed = collapse;
            },
            TreeItemKind::Schema { collapsed, .. } => {
                *collapsed = collapse;
            },
            _ => {},
        }
    }

    /// Whether the item is shown in `tree`.
    pub fn is_visible(&self, tree: &DatabaseTree) -> (b: bool)
        requires
            tree.wf(),
            match self.kind {
                TreeItemKind::Database { .. } => true,
                TreeItemKind::Schema { database, .. } => database < tree.0@.len(),
                TreeItemKind::Table { schema, database } => schema < tree.0@.len() && database < tree.0@.len(),
            },
        ensures
            b == kind_visible(tree.view(), self.kind),
    {
        match self.kind {
            TreeItemKind::Database { .. } => true,
            TreeItemKind::Schema { database, .. } => !tree.0[database].is_collapsed(),
            TreeItemKind::Table { schema, database } => !tree.0[schema].is_collapsed()
                && !tree.0[database].is_collapsed(),
        }
    }
}

/// The items of the tree, in display order.
#[derive(Debug)]
pub struct DatabaseTree(pub Vec<TreeItem>);

impl DatabaseTree {
    /// The items as mathematical values.
    pub open spec fn view(&self) -> Seq<ItemView> {
        self.0@.map_values(|t: TreeItem| t@)
    }

    /// Every schema and table refers to items before it of the right kinds.
    pub open spec fn wf(&self) -> bool {
        tree_wf(self.view())
    }

    /// An empty tree.
    pub fn new() -> (t: Self)
        ensures
            t.wf(),
            t.view() == Seq::<ItemView>::empty(),
    {
        let t = DatabaseTree(Vec::new());
        assert(t.view() =~= Seq::<ItemView>::empty());
        t
    }

    /// Whether the item at index `i` is shown.
    pub fn is_visible(&self, i: usize) -> (b: bool)
        requires
            self.wf(),
            i < self.0@.len(),
        ensures
            b == kind_visible(self.view(), self.view()[i as int].2),
    {
        assert(item_wf(self.view(), i as int));
        self.0[i].is_visible(self)
    }

    /// Collapses or opens the item at index `i`.
    pub fn set_collapse(&mut self, i: usize, collapse: bool)
        requires
            old(self).wf(),
            i < old(self).0@.len(),
        ensures
            final(self).wf(),
            final(self).0@.len() == old(self).0@.len(),
            forall|j: int| 0 <= j < old(self).0@.len() && j != i ==> #[trigger] final(self).view()[j] == old(self).view()[j],
            final(self).view()[i as int].0 == old(self).view()[i as int].0,
            final(self).view()[i as int].1 == old(self).view()[i as int].1,
            final(self).view()[i as int].2 == match old(self).view()[i as int].2 {
                TreeItemKind::Database { .. } => TreeItemKind::Database { collapsed: collapse },
                TreeItemKind::Schema { database, .. } => TreeItemKind::Schema { collapsed: collapse, database },
                k => k,
            },
    {
        let ghost t0 = self.view();
        self.0[i].set_collapse(collapse);
        proof {
            assert forall|j: int| 0 <= j < self.view().len() implies #[trigger] item_wf(self.view(), j) by {
                assert(item_wf(t0, j));
            }
        }
    }
}

/// One row of the tree query: a database, one of its schemas, and the tables of that
/// schema.
pub struct TreeRow {
    pub database: String,
    pub schema: String,
    pub tables: Vec<String>,
}

/// A row as a mathematical value.
pub type RowView = (Seq<char>, Seq<char>, Seq<Seq<char>>);

impl View for TreeRow {
    type V = RowView;

    open spec fn view(&self) -> RowView {
        (self.database@, self.schema@, self.tables@.map_values(|s: String| s@))
    }
}

/// The index of the last database pushed, if any, refers to a database.
pub open spec fn db_ok(tree: Seq<ItemView>, db: Option<usize>) -> bool {
    match db {
        Some(d) => d < tree.len() && tree[d as int].2 is Database,
        None => true,
    }
}

/// Pushes the database `item` unless it is the last database pushed, by name, and keeps
/// the index of the last database pushed.
pub fn new_db_tree(item: TreeItem, db: &mut Option<usize>, tree: &mut Vec<TreeItem>)
    requires
        item.kind is Database,
        tree_wf(old(tree)@.map_values(|t: TreeItem| t@)),
        db_ok(old(tree)@.map_values(|t: TreeItem| t@), *old(db)),
    ensures
        tree_wf(final(tree)@.map_values(|t: TreeItem| t@)),
        db_ok(final(tree)@.map_values(|t: TreeItem| t@), *final(db)),
        *final(db) is Some,
        match *old(db) {
            Some(d) if old(tree)@[d as int].name@ == item.name@ => *final(db) == *old(db) && final(tree)@ == old(tree)@,
            _ => *final(db) == Some(old(tree)@.len() as usize) && final(tree)@ == old(tree)@.push(item),
        },
{
    let ghost t0 = tree@.map_values(|t: TreeItem| t@);
    if let Some(d) = *db {
        if tree[d].name == item.name {
            return;
        }
    }
    let n = tree.len();
    tree.push(item);
    *db = Some(n);
    proof {
        let t1 = tree@.map_values(|t: TreeItem| t@);
        assert(t1 =~= t0.push(item@));
        assert forall|i: int| 0 <= i < t1.len() implies #[trigger] item_wf(t1, i) by {
            if i < t0.len() {
                assert(item_wf(t0, i));
            }
        }
    }
}

/// The item of database `name`.
pub open spec fn db_item(name: Seq<char>) -> ItemView {
    (0u8, name, TreeItemKind::Database { collapsed: false })
}

/// The item of schema `name` of the database at `d`.
pub open spec fn schema_item(name: Seq<char>, d: nat) -> ItemView {
    (DEFAULT_INDENT, name, TreeItemKind::Schema { collapsed: false, database: d as usize })
}

/// The item of table `name` of the schema at `s` of the database at `d`.
pub open spec fn table_item(name: Seq<char>, s: nat, d: nat) -> ItemView {
    ((DEFAULT_INDENT * 2) as u8, name, TreeItemKind::Table { schema: s as usize, database: d as usize })
}

/// The tree that the rows give, and the index of the last database: for each row its
/// database (unless it is the last one, by name), its schema, then its tables.
pub open spec fn tree_of_rows(rows: Seq<RowView>) -> (Seq<ItemView>, Option<nat>)
    decreases rows.len(),
{
    if rows.len() == 0 {
        (Seq::empty(), None)
    } else {
        let (t, db) = tree_of_rows(rows.drop_last());
        let r = rows.last();
        let (t1, d) = match db {
            Some(d) => if t[d as int].1 == r.0 {
                (t, d)
            } else {
                (t.push(db_item(r.0)), t.len())
            },
            None => (t.push(db_item(r.0)), t.len()),
        };
        let s = t1.len();
        let t2 = t1.push(schema_item(r.1, d));
        (t2 + Seq::new(r.2.len(), |k: int| table_item(r.2[k], s, d)), Some(d))
    }
}

impl DatabaseTree {
    /// The tree of the rows of the tree query, in their order.
    pub fn from_rows(rows: Vec<TreeRow>) -> (t: Self)
        ensures
            t.wf(),
            t.view() == tree_of_rows(rows@.map_values(|r: TreeRow| r@)).0,
    {
        let ghost rv = rows@.map_values(|r: TreeRow| r@);
        let mut tree: Vec<TreeItem> = Vec::new();
        let mut db: Option<usize> = None;
        let mut i: usize = 0;
        assert(rv.take(0) =~= Seq::<RowView>::empty());
        assert(tree@.map_values(|t: TreeItem| t@) =~= Seq::<ItemView>::empty());
        while i < rows.len()
            invariant
                rv == rows@.map_values(|r: TreeRow| r@),
                i <= rows@.len(),
                tree_wf(tree@.map_values(|t: TreeItem| t@)),
                db_ok(tree@.map_values(|t: TreeItem| t@), db),
                tree@.map_values(|t: TreeItem| t@) == tree_of_rows(rv.take(i as int)).0,
                tree_of_rows(rv.take(i as int)).1 == match db {
                    Some(d) => Some(d as nat),
                    None => None::<nat>,
                },
            decreases rows@.len() - i,
        {
            let row = &rows[i];
            assert(rv.take(i + 1).drop_last() =~= rv.take(i as int));
            assert(rv.take(i + 1).last() == row@);
            let ghost tv0 = tree@.map_values(|t: TreeItem| t@);
            let ghost tree0 = tree@;
            let ghost db0 = db;
            let item = TreeItem::database(row.database.clone());
            assert(item.name@ == row@.0);
            new_db_tree(item, &mut db, &mut tree);
            proof {
                let tv1 = tree@.map_values(|t: TreeItem| t@);
                match db0 {
                    Some(d0) => {
                        assert(tv0[d0 as int].1 == tree0[d0 as int].name@);
                        if tv0[d0 as int].1 == row@.0 {
                            assert(tv1 =~= tv0);
                        } else {
                            assert(tv1 =~= tv0.push(db_item(row@.0)));
                        }
                    },
                    None => {
                        assert(tv1 =~= tv0.push(db_item(row@.0)));
                    },
                }
            }
            let d = match db {
                Some(d) => d,
                None => 0,
            };
            let s = tree.len();
            let ghost tv1 = tree@.map_values(|t: TreeItem| t@);
            tree.push(TreeItem::schema(row.schema.clone(), d));
            let ghost tv2 = tree@.map_values(|t: TreeItem| t@);
            proof {
                assert(tv2 =~= tv1.push(schema_item(row@.1, d as nat)));
                assert forall|k: int| 0 <= k < tv2.len() implies #[trigger] item_wf(tv2, k) by {
                    if k < tv1.len() {
                        assert(item_wf(tv1, k));
                    }
                }
            }
            let mut j: usize = 0;
            while j < row.tables.len()
                invariant
                    row@ == rv[i as int],
                    s == tv1.len(),
                    d < s,
                    tv1[d as int].2 is Database,
                    j <= row@.2.len(),
                    tree_wf(tree@.map_values(|t: TreeItem| t@)),
                    tree@.map_values(|t: TreeItem| t@) == tv2 + Seq::new(j as nat, |k: int| table_item(row@.2[k], s as nat, d as nat)),
                    tv2 == tv1.push(schema_item(row@.1, d as nat)),
                decreases row@.2.len() - j,
            {
                let ghost tv3 = tree@.map_values(|t: TreeItem| t@);
                tree.push(TreeItem::table(row.tables[j].clone(), s, d));
                proof {
                    let tv4 = tree@.map_values(|t: TreeItem| t@);
                    assert(tv4 =~= tv3.push(table_item(row@.2[j as int], s as nat, d as nat)));
                    assert(tv4 =~= tv2 + Seq::new((j + 1) as nat, |k: int| table_item(row@.2[k], s as nat, d as nat)));
                    assert forall|k: int| 0 <= k < tv4.len() implies #[trigger] item_wf(tv4, k) by {
                        if k < tv3.len() {
                            assert(item_wf(tv3, k));
                        } else {
                            assert(tv4[k].2 == TreeItemKind::Table { schema: s, database: d });
                            assert(tv4[s as int] == schema_item(row@.1, d as nat));
                            assert(tv4[d as int] == tv1[d as int]);
                        }
                    }
                }
                j = j + 1;
            }
            proof {
                let prev = tree_of_rows(rv.take(i as int));
                let r = row@;
                assert(prev.0 == tv0);
                let dd: nat = match db0 {
                    Some(d0) => if tree0[d0 as int].name@ == r.0 { d0 as nat } else { tv0.len() },
                    None => tv0.len(),
                };
                match db0 {
                    Some(d0) => {
                        assert(tv0[d0 as int].1 == tree0[d0 as int].name@);
                    },
                    None => {},
                }
                assert(d == dd);
                let next = tree_of_rows(rv.take(i + 1));
                assert(next.1 == Some(dd));
                assert(tree@.map_values(|t: TreeItem| t@) =~= next.0);
            }
            i = i + 1;
        }
        assert(rv.take(rows@.len() as int) =~= rv);
        DatabaseTree(tree)
    }
}

/// Collapse law: a collapsed database hides every schema and table that belongs to it.
pub proof fn law_collapsed_database_hides(tree: Seq<ItemView>, i: int)
    requires
        tree_wf(tree),
        0 <= i < tree.len(),
        match tree[i].2 {
            TreeItemKind::Schema { database, .. } => kind_collapsed(tree[database as int].2),
            TreeItemKind::Table { database, .. } => kind_collapsed(tree[database as int].2),
            _ => false,
        },
    ensures
        !kind_visible(tree, tree[i].2),
{
}

/// Collapse law: a collapsed schema hides every table that belongs to it.
pub proof fn law_collapsed_schema_hides(tree: Seq<ItemView>, i: int)
    requires
        tree_wf(tree),
        0 <= i < tree.len(),
        tree[i].2 matches TreeItemKind::Table { schema, .. } && kind_collapsed(tree[schema as int].2),
    ensures
        !kind_visible(tree, tree[i].2),
{
}

/// Databases are always shown.
pub proof fn law_database_visible(tree: Seq<ItemView>, i: int)
    requires
        0 <= i < tree.len(),
        tree[i].2 is Database,
    ensures
        kind_visible(tree, tree[i].2),
{
}

} // verus!
