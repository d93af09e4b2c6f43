//! The tree of databases, schemas and tables as the nested query answers it: each
//! database maps to its schemas, each schema to its tables.
use vstd::prelude::*;
use crate::chars::{chars_to_string, str_chars};

verus! {

/// What a name maps to: further names, or the table names.
pub enum TreeItem {
    Schemas(Vec<(String, TreeItem)>),
    Tables(Vec<String>),
}

/// The databases, each with what it maps to, in the order in which they came.
pub struct DatabaseTree(pub Vec<(String, TreeItem)>);

/// The names of the entries.
pub open spec fn entry_names(v: Seq<(String, TreeItem)>) -> Seq<Seq<char>> {
    v.map_values(|e: (String, TreeItem)| e.0@)
}

impl DatabaseTree {
    /// No database.
    pub fn new() -> (t: Self)
        ensures
            t.0@.len() == 0,
    {
        DatabaseTree(Vec::new())
    }

    /// Names occur once each.
    pub open spec fn wf(&self) -> bool {
        entry_names(self.0@).no_duplicates()
    }

    /// Maps the database `name` to `item`, replacing what it mapped to.
    pub fn insert(&mut self, name: String, item: TreeItem)
        requires
            old(self).wf(),
        ensures
            final(self).wf(),
            match entry_names(old(self).0@).index_of_first(name@) {
                Some(k) => final(self).0@.len() == old(self).0@.len() && final(self).0@[k].1 == item
                    && entry_names(final(self).0@) == entry_names(old(self).0@)
                    && forall|j: int| 0 <= j < old(self).0@.len() && j != k ==> #[trigger] final(self).0@[j] == old(self).0@[j],
                None => final(self).0@ == old(self).0@.push((name, item)),
            },
    {
        let ghost names = entry_names(self.0@);
        let n = self.0.len();
        let mut k: usize = 0;
        while k < n
            invariant
                n == self.0@.len(),
                names == entry_names(self.0@),
                self.0@ == old(self).0@,
                names.no_duplicates(),
                k <= n,
                forall|j: int| 0 <= j < k ==> names[j] != name@,
            decreases n - k,
        {
            if self.0[k].0 == name {
                proof {
                    names.index_of_first_ensures(name@);
                    assert(names[k as int] == name@);
                    assert(names.index_of_first(name@) == Some(k as int)) by {
                        names.index_of_first_ensures(name@);
                        if let Some(f) = names.index_of_first(name@) {
                            assert(f <= k);
                        }
                    }
                }
                let ghost old_v = self.0@;
                let ghost nv = name@;
                self.0.set(k, (name, item));
                proof {
                    assert(self.0@ == old_v.update(k as int, (self.0@[k as int].0, item)));
                    assert(self.0@[k as int].0@ == nv);
                    assert(entry_names(self.0@) =~= names);
                }
                return;
            }
            k = k + 1;
        }
        proof {
            names.index_of_first_ensures(name@);
            assert(!names.contains(name@));
        }
        self.0.push((name, item));
        proof {
            assert(entry_names(self.0@) =~= names.push(name@));
        }
    }
}

/// Indent of one level of the drawn tree, in cells.
pub const INDENT_OFFSET: usize = 4;

/// `n` spaces.
pub open spec fn spaces(n: nat) -> Seq<char> {
    Seq::new(n, |i: int| ' ')
}

/// A line of the drawn tree: the indent, the branch sign (the closing one for a last
/// entry), a space and the name.
pub open spec fn tree_line(indent: nat, content: Seq<char>, is_last: bool) -> Seq<char> {
    spaces(indent) + (if is_last { "└──"@ } else { "├──"@ }) + seq![' '] + content
}

/// How many levels of names the entries hold below them.
pub open spec fn depth(entries: Seq<(String, TreeItem)>) -> nat
    decreases entries,
{
    if entries.len() == 0 {
        0
    } else {
        let d = depth(entries.drop_last());
        let c = match entries.last().1 {
            TreeItem::Schemas(m) => {
                proof {
                    assert(decreases_to!(entries => entries.last()));
                }
                1 + depth(m@)
            },
            TreeItem::Tables(_) => 1,
        };
        if d >= c {
            d
        } else {
            c
        }
    }
}

/// The lines of the drawn tree: each name with the closing sign, then what it maps to,
/// one level further in; table names never get the closing sign.
pub open spec fn tree_lines(indent: nat, entries: Seq<(String, TreeItem)>) -> Seq<Seq<char>>
    decreases entries,
{
    if entries.len() == 0 {
        Seq::empty()
    } else {
        let rest = tree_lines(indent, entries.drop_last());
        let e = entries.last();
        let below = match e.1 {
            TreeItem::Schemas(m) => {
                proof {
                    assert(decreases_to!(entries => entries.last()));
                }
                tree_lines((indent + INDENT_OFFSET) as nat, m@)
            },
            TreeItem::Tables(v) => Seq::new(
                v@.len(),
                |i: int| tree_line((indent + INDENT_OFFSET) as nat, v@[i]@, i == v@.len()),
            ),
        };
        rest + seq![tree_line(indent, e.0@, true)] + below
    }
}

/// A line of the drawn tree, computed.
fn make_line(indent: usize, content: &str, is_last: bool) -> (s: String)
    ensures
        s@ == tree_line(indent as nat, content@, is_last),
{
    let mut v: Vec<char> = Vec::new();
    let mut i: usize = 0;
    while i < indent
        invariant
            i <= indent,
            v@ == spaces(i as nat),
        decreases indent - i,
    {
        v.push(' ');
        i = i + 1;
        assert(v@ =~= spaces(i as nat));
    }
    let sign = if is_last {
        str_chars("└──")
    } else {
        str_chars("├──")
    };
    let ghost before = v@;
    let mut k: usize = 0;
    while k < sign.len()
        invariant
            k <= sign@.len(),
            v@ == before + sign@.take(k as int),
        decreases sign@.len() - k,
    {
        v.push(sign[k]);
        k = k + 1;
        assert(before + sign@.take(k as int) =~= before + sign@.take(k - 1) + seq![sign@[k - 1]]);
    }
    assert(sign@.take(sign@.len() as int) =~= sign@);
    v.push(' ');
    let c = str_chars(content);
    let ghost mid = v@;
    let mut j: usize = 0;
    while j < c.len()
        invariant
            j <= c@.len(),
            v@ == mid + c@.take(j as int),
        decreases c@.len() - j,
    {
        v.push(c[j]);
        j = j + 1;
        assert(mid + c@.take(j as int) =~= mid + c@.take(j - 1) + seq![c@[j - 1]]);
    }
    assert(c@.take(c@.len() as int) =~= c@);
    assert(v@ =~= tree_line(indent as nat, content@, is_last));
    chars_to_string(v.as_slice())
}

/// Appends the lines of the drawn tree of `tree`, at `indent`, to `items`.
pub fn draw_tree(indent: usize, items: Vec<String>, tree: &Vec<(String, TreeItem)>) -> (r: Vec<String>)
    requires
        indent + INDENT_OFFSET * depth(tree@) <= usize::MAX,
    ensures
        r@.map_values(|s: String| s@) == items@.map_values(|s: String| s@) + tree_lines(indent as nat, tree@),
    decreases tree@,
{
    let mut items = items;
    let ghost start = items@.map_values(|s: String| s@);
    let mut k: usize = 0;
    assert(tree@.take(0) =~= Seq::<(String, TreeItem)>::empty());
    while k < tree.len()
        invariant
            k <= tree@.len(),
            indent + INDENT_OFFSET * depth(tree@) <= usize::MAX,
            items@.map_values(|s: String| s@) == start + tree_lines(indent as nat, tree@.take(k as int)),
        decreases tree@.len() - k,
    {
        let (parent, children) = &tree[k];
        proof {
            assert(tree@.take(k + 1).drop_last() =~= tree@.take(k as int));
            assert(tree@.take(k + 1).last() == tree@[k as int]);
            lemma_depth_take(tree@, k + 1);
            lemma_depth_last(tree@.take(k + 1));
        }
        let ghost before = items@.map_values(|s: String| s@);
        items.push(make_line(indent, parent.as_str(), true));
        assert(items@.map_values(|s: String| s@) =~= before.push(tree_line(indent as nat, parent@, true)));
        match children {
            TreeItem::Schemas(m) => {
                proof {
                    assert(decreases_to!(tree@ => tree@[k as int]));
                }
                items = draw_tree(indent + INDENT_OFFSET, items, m);
            },
            TreeItem::Tables(v) => {
                let ghost mid = items@.map_values(|s: String| s@);
                let mut i: usize = 0;
                while i < v.len()
                    invariant
                        i <= v@.len(),
                        indent + INDENT_OFFSET <= usize::MAX,
                        items@.map_values(|s: String| s@) == mid + Seq::new(
                            i as nat,
                            |j: int| tree_line((indent + INDENT_OFFSET) as nat, v@[j]@, j == v@.len()),
                        ),
                    decreases v@.len() - i,
                {
                    let ghost b2 = items@.map_values(|s: String| s@);
                    let line = make_line(indent + INDENT_OFFSET, v[i].as_str(), i == v.len());
                    items.push(line);
                    proof {
                        assert(items@.map_values(|s: String| s@) =~= b2.push(line@));
                        assert(line@ == tree_line((indent + INDENT_OFFSET) as nat, v@[i as int]@, i == v@.len()));
                        assert(items@.map_values(|s: String| s@) =~= mid + Seq::new(
                            (i + 1) as nat,
                            |j: int| tree_line((indent + INDENT_OFFSET) as nat, v@[j]@, j == v@.len()),
                        ));
                    }
                    i = i + 1;
                }
            },
        }
        k = k + 1;
    }
    assert(tree@.take(tree@.len() as int) =~= tree@);
    items
}

/// Whether the entries hold at most `bound` levels of names below them.
pub fn depth_at_most(tree: &Vec<(String, TreeItem)>, bound: usize) -> (b: bool)
    ensures
        b == (depth(tree@) <= bound),
    decreases tree@,
{
    let mut k: usize = 0;
    assert(tree@.take(0) =~= Seq::<(String, TreeItem)>::empty());
    while k < tree.len()
        invariant
            k <= tree@.len(),
            depth(tree@.take(k as int)) <= bound,
        decreases tree@.len() - k,
    {
        proof {
            assert(tree@.take(k + 1).drop_last() =~= tree@.take(k as int));
            assert(tree@.take(k + 1).last() == tree@[k as int]);
            lemma_depth_take(tree@, k + 1);
            lemma_depth_last(tree@.take(k + 1));
        }
        let fits = match &tree[k].1 {
            TreeItem::Schemas(m) => {
                proof {
                    assert(decreases_to!(tree@ => tree@[k as int]));
                }
                bound >= 1 && depth_at_most(m, bound - 1)
            },
            TreeItem::Tables(_) => bound >= 1,
        };
        if !fits {
            return false;
        }
        k = k + 1;
    }
    assert(tree@.take(tree@.len() as int) =~= tree@);
    true
}

/// The depth of a prefix is at most the depth of the whole.
proof fn lemma_depth_take(s: Seq<(String, TreeItem)>, k: int)
    requires
        0 <= k <= s.len(),
    ensures
        depth(s.take(k)) <= depth(s),
    decreases s.len(),
{
    if k < s.len() {
        assert(s.drop_last().take(k) =~= s.take(k));
        lemma_depth_take(s.drop_last(), k);
    } else {
        assert(s.take(k) =~= s);
    }
}

/// The last entry's levels count in the depth.
proof fn lemma_depth_last(s: Seq<(String, TreeItem)>)
    requires
        s.len() > 0,
    ensures
        depth(s.drop_last()) <= depth(s),
        match s.last().1 {
            TreeItem::Schemas(m) => 1 + depth(m@) <= depth(s),
            TreeItem::Tables(_) => 1 <= depth(s),
        },
{
}

} // verus!
