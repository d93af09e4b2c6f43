//! The panes of the database browser: what a key does in each, the selection of a
//! connection in a list, and the lines that the tree panes show.
use vstd::prelude::*;
use crate::chars::{chars_to_string, str_chars};
use crate::db::connection::ConnectionConfig;
use crate::db::queries::{draw_tree, depth, tree_lines, INDENT_OFFSET};
use crate::db::tree::{kind_collapsed, kind_visible, DatabaseTree, ItemView};
use crate::event::{Event, EventOutcome, Input};

verus! {

/// The panes.
#[derive(Debug, Clone, Copy, PartialEq, Eq, Structural, Hash)]
pub enum AppWidgetName {
    ConnectionList,
    DatabaseTree,
    Editor,
}

/// Data that a pane hands to the application, such as the pool of the connection
/// chosen.
pub enum AppWidgetData<P> {
    Connection(P),
}

/// What handling a key asks of the application: an outcome, a change of focus, or data
/// to apply.
pub enum AppEventOutcome<P> {
    Outcome(EventOutcome),
    Focus(AppWidgetName),
    Apply(AppWidgetData<P>),
}

impl<P> AppEventOutcome<P> {
    /// The outcome, as the application's.
    pub fn from_outcome(value: EventOutcome) -> (r: Self)
        ensures
            r matches AppEventOutcome::Outcome(v) && v == value,
    {
        AppEventOutcome::Outcome(value)
    }
}

/// What a key does in a tree pane: `q` and `Esc` leave, other keys are ignored.
pub open spec fn tree_input_outcome(input: Input) -> EventOutcome {
    match input.event {
        Event::Char('q') | Event::Esc => EventOutcome::Exit,
        _ => EventOutcome::Ignore,
    }
}

/// What a key does in a tree pane.
pub fn tree_input<P>(input: Input) -> (r: AppEventOutcome<P>)
    ensures
        r matches AppEventOutcome::Outcome(v) && v == tree_input_outcome(input),
{
    let outcome = match input.event {
        Event::Char('q') | Event::Esc => EventOutcome::Exit,
        _ => EventOutcome::Ignore,
    };
    AppEventOutcome::from_outcome(outcome)
}

/// The selection in a list of `len` items, after a move down: the item after, the first
/// after the last.
pub open spec fn next_selected(selected: Option<usize>, len: nat) -> Option<usize> {
    match selected {
        Some(i) => if i >= len - 1 {
            Some(0usize)
        } else {
            Some((i + 1) as usize)
        },
        None => None,
    }
}

/// The selection in a list of `len` items, after a move up: the item before, the last
/// before the first.
pub open spec fn prev_selected(selected: Option<usize>, len: nat) -> Option<usize> {
    match selected {
        Some(i) => if i == 0 {
            Some((len - 1) as usize)
        } else {
            Some((i - 1) as usize)
        },
        None => None,
    }
}

/// Whether the selection `selected` lies within a list of `len` items.
pub open spec fn selection_within(selected: Option<usize>, len: nat) -> bool {
    match selected {
        Some(i) => i < len,
        None => true,
    }
}

/// A list whose selection moves down and up, wrapping around.
pub trait DuzzyList {
    /// The selected item, if any.
    spec fn selected_item(&self) -> Option<usize>;

    /// The number of items.
    spec fn item_count(&self) -> nat;

    /// The items are held in memory, so their number fits in a `usize`.
    proof fn lemma_item_count_bounded(&self)
        ensures
            self.item_count() <= usize::MAX,
    ;

    /// Moves the selection down: the item after, the first after the last; no selection
    /// stays none.
    fn next(&mut self)
        ensures
            final(self).item_count() == old(self).item_count(),
            selection_within(old(self).selected_item(), old(self).item_count())
                ==> final(self).selected_item() == next_selected(old(self).selected_item(), old(self).item_count()),
    ;

    /// Moves the selection up: the item before, the last before the first; no selection
    /// stays none.
    fn prev(&mut self)
        ensures
            final(self).item_count() == old(self).item_count(),
            selection_within(old(self).selected_item(), old(self).item_count())
                ==> final(self).selected_item() == prev_selected(old(self).selected_item(), old(self).item_count()),
    ;
}

/// What a key asks of the connection list: an outcome, or a connection to the item at an
/// index.
pub enum ConnStep {
    Outcome(EventOutcome),
    Connect(usize),
}

/// The list of configured connections and the one selected.
pub struct ConnectionsWidget {
    pub selected: Option<usize>,
    pub configs: Vec<ConnectionConfig>,
}

impl ConnectionsWidget {
    /// The list of `conns`, the first one selected if there is one.
    pub fn new(conns: Vec<ConnectionConfig>) -> (w: Self)
        ensures
            w.configs@ == conns@,
            w.selected == if conns@.len() > 0 { Some(0usize) } else { None },
    {
        let selected = if conns.len() > 0 {
            Some(0)
        } else {
            None
        };
        ConnectionsWidget { selected, configs: conns }
    }

    /// The selection stays within the list.
    pub open spec fn wf(&self) -> bool {
        match self.selected {
            Some(i) => i < self.configs@.len(),
            None => true,
        }
    }

    /// The item to connect to: the selected one, if it exists.
    pub fn select_connection(&self) -> (r: Option<usize>)
        ensures
            r == match self.selected {
                Some(i) => if i < self.configs@.len() { Some(i) } else { None },
                None => None,
            },
    {
        match self.selected {
            Some(i) => if i < self.configs.len() {
                Some(i)
            } else {
                None
            },
            None => None,
        }
    }

    /// The lines of the list: each connection's display name.
    pub fn lines(&self) -> (v: Vec<String>)
        ensures
            v@.len() == self.configs@.len(),
            forall|i: int| 0 <= i < v@.len() ==> (#[trigger] v@[i])@ == match self.configs@[i].name {
                Some(n) => n@,
                None => crate::db::connection::url_name(self.configs@[i].user@, self.configs@[i].host@, self.configs@[i].port as nat),
            },
    {
        let mut v: Vec<String> = Vec::new();
        let mut i: usize = 0;
        while i < self.configs.len()
            invariant
                i <= self.configs@.len(),
                v@.len() == i,
                forall|j: int| 0 <= j < i ==> (#[trigger] v@[j])@ == match self.configs@[j].name {
                    Some(n) => n@,
                    None => crate::db::connection::url_name(self.configs@[j].user@, self.configs@[j].host@, self.configs@[j].port as nat),
                },
            decreases self.configs@.len() - i,
        {
            v.push(self.configs[i].display_name());
            i = i + 1;
        }
        v
    }

    /// What a key does: `q` and `Esc` leave, `j` and down move down, `k` and up move up,
    /// `l`, right and `Enter` connect to the selected item; other keys are ignored.
    pub fn input(&mut self, input: Input) -> (r: ConnStep)
        requires
            old(self).wf(),
        ensures
            final(self).wf(),
            final(self).configs == old(self).configs,
            match input.event {
                Event::Char('q') | Event::Esc => r matches ConnStep::Outcome(o) && o == EventOutcome::Exit
                    && final(self).selected == old(self).selected,
                Event::Char('j') | Event::Down => r matches ConnStep::Outcome(o) && o == EventOutcome::Render
                    && final(self).selected == next_selected(old(self).selected, old(self).configs@.len()),
                Event::Char('k') | Event::Up => r matches ConnStep::Outcome(o) && o == EventOutcome::Render
                    && final(self).selected == prev_selected(old(self).selected, old(self).configs@.len()),
                Event::Char('l') | Event::Right | Event::Enter => final(self).selected == old(self).selected
                    && match old(self).selected {
                        Some(i) => r matches ConnStep::Connect(j) && j == i,
                        None => r matches ConnStep::Outcome(o) && o == EventOutcome::Render,
                    },
                _ => r matches ConnStep::Outcome(o) && o == EventOutcome::Ignore
                    && final(self).selected == old(self).selected,
            },
    {
        match input.event {
            Event::Char('q') | Event::Esc => ConnStep::Outcome(EventOutcome::Exit),
            Event::Char('j') | Event::Down => {
                self.next_connection();
                ConnStep::Outcome(EventOutcome::Render)
            },
            Event::Char('k') | Event::Up => {
                self.prev_connection();
                ConnStep::Outcome(EventOutcome::Render)
            },
            Event::Char('l') | Event::Right | Event::Enter => match self.select_connection() {
                Some(i) => ConnStep::Connect(i),
                None => ConnStep::Outcome(EventOutcome::Render),
            },
            _ => ConnStep::Outcome(EventOutcome::Ignore),
        }
    }
}

impl ConnectionsWidget {
    /// Moves the selection down, wrapping around.
    pub fn next_connection(&mut self)
        ensures
            final(self).configs == old(self).configs,
            old(self).wf() ==> final(self).selected == next_selected(old(self).selected, old(self).configs@.len()),
            old(self).wf() ==> final(self).wf(),
    {
        let len = self.configs.len();
        self.selected = match self.selected {
            Some(i) => if len == 0 || i >= len - 1 {
                Some(0)
            } else {
                Some(i + 1)
            },
            None => None,
        };
    }

    /// Moves the selection up, wrapping around.
    pub fn prev_connection(&mut self)
        ensures
            final(self).configs == old(self).configs,
            old(self).wf() ==> final(self).selected == prev_selected(old(self).selected, old(self).configs@.len()),
            old(self).wf() ==> final(self).wf(),
    {
        let len = self.configs.len();
        self.selected = match self.selected {
            Some(i) => if i == 0 {
                Some(if len == 0 { 0 } else { len - 1 })
            } else {
                Some(i - 1)
            },
            None => None,
        };
    }
}

/// The list of connections of the configuration builder, and the one selected.
pub struct ConnListWidget {
    pub selected: Option<usize>,
    pub configs: Vec<crate::db::config::ConnectionConfig>,
}

impl ConnListWidget {
    /// The list of `conns`, the first one selected if there is one.
    pub fn new(conns: Vec<crate::db::config::ConnectionConfig>) -> (w: Self)
        ensures
            w.configs@ == conns@,
            w.selected == if conns@.len() > 0 { Some(0usize) } else { None },
    {
        let selected = if conns.len() > 0 {
            Some(0)
        } else {
            None
        };
        ConnListWidget { selected, configs: conns }
    }

    /// The selection stays within the list.
    pub open spec fn wf(&self) -> bool {
        match self.selected {
            Some(i) => i < self.configs@.len(),
            None => true,
        }
    }

    /// Number of connections.
    pub fn length(&self) -> (n: usize)
        ensures
            n == self.configs@.len(),
    {
        self.configs.len()
    }

    /// The lines of the list: each connection's name.
    pub fn lines(&self) -> (v: Vec<String>)
        ensures
            v@.len() == self.configs@.len(),
            forall|i: int| 0 <= i < v@.len() ==> (#[trigger] v@[i])@ == self.configs@[i]@.0,
    {
        let mut v: Vec<String> = Vec::new();
        let mut i: usize = 0;
        while i < self.configs.len()
            invariant
                i <= self.configs@.len(),
                v@.len() == i,
                forall|j: int| 0 <= j < i ==> (#[trigger] v@[j])@ == self.configs@[j]@.0,
            decreases self.configs@.len() - i,
        {
            v.push(self.configs[i].name().clone());
            i = i + 1;
        }
        v
    }

    /// What a key does: `q` and `Esc` leave, `j` and down move down, `k` and up move up,
    /// `l`, right and `Enter` connect to the selected item; other keys are ignored.
    pub fn input(&mut self, input: Input) -> (r: ConnStep)
        requires
            old(self).wf(),
        ensures
            final(self).wf(),
            final(self).configs == old(self).configs,
            match input.event {
                Event::Char('q') | Event::Esc => r matches ConnStep::Outcome(o) && o == EventOutcome::Exit
                    && final(self).selected == old(self).selected,
                Event::Char('j') | Event::Down => r matches ConnStep::Outcome(o) && o == EventOutcome::Render
                    && final(self).selected == next_selected(old(self).selected, old(self).configs@.len()),
                Event::Char('k') | Event::Up => r matches ConnStep::Outcome(o) && o == EventOutcome::Render
                    && final(self).selected == prev_selected(old(self).selected, old(self).configs@.len()),
                Event::Char('l') | Event::Right | Event::Enter => final(self).selected == old(self).selected
                    && match old(self).selected {
                        Some(i) => r matches ConnStep::Connect(j) && j == i,
                        None => r matches ConnStep::Outcome(o) && o == EventOutcome::Render,
                    },
                _ => r matches ConnStep::Outcome(o) && o == EventOutcome::Ignore
                    && final(self).selected == old(self).selected,
            },
    {
        match input.event {
            Event::Char('q') | Event::Esc => ConnStep::Outcome(EventOutcome::Exit),
            Event::Char('j') | Event::Down => {
                self.next();
                ConnStep::Outcome(EventOutcome::Render)
            },
            Event::Char('k') | Event::Up => {
                self.prev();
                ConnStep::Outcome(EventOutcome::Render)
            },
            Event::Char('l') | Event::Right | Event::Enter => match self.selected {
                Some(i) => ConnStep::Connect(i),
                None => ConnStep::Outcome(EventOutcome::Render),
            },
            _ => ConnStep::Outcome(EventOutcome::Ignore),
        }
    }
}

impl DuzzyList for ConnListWidget {
    open spec fn selected_item(&self) -> Option<usize> {
        self.selected
    }

    open spec fn item_count(&self) -> nat {
        self.configs@.len()
    }

    proof fn lemma_item_count_bounded(&self) {
        vstd::std_specs::vec::axiom_spec_len(&self.configs);
    }

    /// Moves the selection down, wrapping around.
    fn next(&mut self)
        ensures
            final(self).configs == old(self).configs,
            old(self).wf() ==> final(self).selected == next_selected(old(self).selected, old(self).configs@.len()),
            old(self).wf() ==> final(self).wf(),
    {
        let len = self.length();
        self.selected = match self.selected {
            Some(i) => if len == 0 || i >= len - 1 {
                Some(0)
            } else {
                Some(i + 1)
            },
            None => None,
        };
    }

    /// Moves the selection up, wrapping around.
    fn prev(&mut self)
        ensures
            final(self).configs == old(self).configs,
            old(self).wf() ==> final(self).selected == prev_selected(old(self).selected, old(self).configs@.len()),
            old(self).wf() ==> final(self).wf(),
    {
        let len = self.length();
        self.selected = match self.selected {
            Some(i) => if i == 0 {
                Some(if len == 0 { 0 } else { len - 1 })
            } else {
                Some(i - 1)
            },
            None => None,
        };
    }
}

/// Wrap-around law, for every list of the `DuzzyList` trait, whose moves are
/// `next_selected` and `prev_selected`: moving down from the last item selects the
/// first, and moving up from the first selects the last; moving down then up, or up
/// then down, gives back the selection; the selection stays within the list; no
/// selection stays none.
pub proof fn law_list_wraps(i: usize, len: nat)
    requires
        i < len,
        len <= usize::MAX,
    ensures
        i == len - 1 ==> next_selected(Some(i), len) == Some(0usize),
        i == 0 ==> prev_selected(Some(i), len) == Some((len - 1) as usize),
        prev_selected(next_selected(Some(i), len), len) == Some(i),
        next_selected(prev_selected(Some(i), len), len) == Some(i),
        selection_within(next_selected(Some(i), len), len),
        selection_within(prev_selected(Some(i), len), len),
        next_selected(None, len) == None::<usize> && prev_selected(None, len) == None::<usize>,
{
}

/// Wrap-around law for every list of the `DuzzyList` trait, whose `next` and `prev`
/// move the selection as `next_selected` and `prev_selected` do: moving down then up, or
/// up then down, gives back the selection; the selection stays within the list; moving
/// down from the last item selects the first, and moving up from the first selects the
/// last; no selection stays none.
pub proof fn law_duzzy_list_wraps<T: DuzzyList>(x: T)
    requires
        selection_within(x.selected_item(), x.item_count()),
    ensures
        ({
            let s = x.selected_item();
            let n = x.item_count();
            &&& prev_selected(next_selected(s, n), n) == s
            &&& next_selected(prev_selected(s, n), n) == s
            &&& selection_within(next_selected(s, n), n)
            &&& selection_within(prev_selected(s, n), n)
            &&& (s matches Some(i) && i == n - 1 ==> next_selected(s, n) == Some(0usize))
            &&& (s matches Some(i) && i == 0 ==> prev_selected(s, n) == Some((n - 1) as usize))
            &&& (s is None ==> next_selected(s, n) is None && prev_selected(s, n) is None)
        }),
{
    x.lemma_item_count_bounded();
    if let Some(i) = x.selected_item() {
        law_list_wraps(i, x.item_count());
    }
}

/// The pane of the tree kept in display order.
pub struct DbTreeWidget {
    pub inner: DatabaseTree,
}

/// The items of `tree` that are shown, in order.
pub open spec fn visible_items(tree: Seq<ItemView>, k: nat) -> Seq<ItemView>
    decreases k,
{
    if k == 0 {
        Seq::empty()
    } else {
        let rest = visible_items(tree, (k - 1) as nat);
        if kind_visible(tree, tree[k - 1].2) {
            rest.push(tree[k - 1])
        } else {
            rest
        }
    }
}

/// A line of the tree pane: the indent, the sign (the closing one for the last line or an
/// open item), a space and the name.
pub open spec fn pane_line(item: ItemView, is_close: bool) -> Seq<char> {
    crate::db::queries::spaces(item.0 as nat) + (if is_close { "└──"@ } else { "├──"@ }) + seq![' '] + item.1
}

impl DbTreeWidget {
    /// What a key does: `q` and `Esc` leave, other keys are ignored.
    pub fn input<P>(&mut self, input: Input) -> (r: AppEventOutcome<P>)
        ensures
            r matches AppEventOutcome::Outcome(v) && v == tree_input_outcome(input),
    {
        tree_input(input)
    }

    /// The lines of the pane: one per shown item. The index of the last shown line is
    /// computed, hence the requirement that one be shown.
    pub fn lines(&self) -> (v: Vec<String>)
        requires
            self.inner.wf(),
            visible_items(self.inner.view(), self.inner.0@.len()).len() > 0,
        ensures
            ({
                let vis = visible_items(self.inner.view(), self.inner.0@.len());
                &&& v@.len() == vis.len()
                &&& forall|i: int| 0 <= i < vis.len() ==> (#[trigger] v@[i])@ == pane_line(
                    vis[i],
                    i == vis.len() - 1 || !kind_collapsed(vis[i].2),
                )
            }),
    {
        let ghost tv = self.inner.view();
        let n = self.inner.0.len();
        let mut idx: Vec<usize> = Vec::new();
        let mut k: usize = 0;
        while k < n
            invariant
                n == self.inner.0@.len(),
                tv == self.inner.view(),
                self.inner.wf(),
                k <= n,
                idx@.len() == visible_items(tv, k as nat).len(),
                forall|j: int| 0 <= j < idx@.len() ==> #[trigger] idx@[j] < n && tv[idx@[j] as int] == visible_items(tv, k as nat)[j],
            decreases n - k,
        {
            if self.inner.is_visible(k) {
                idx.push(k);
            }
            k = k + 1;
        }
        let m = idx.len();
        let mut v: Vec<String> = Vec::new();
        let mut i: usize = 0;
        while i < m
            invariant
                m == idx@.len(),
                n == self.inner.0@.len(),
                tv == self.inner.view(),
                m == visible_items(tv, n as nat).len(),
                forall|j: int| 0 <= j < m ==> #[trigger] idx@[j] < n && tv[idx@[j] as int] == visible_items(tv, n as nat)[j],
                i <= m,
                v@.len() == i,
                forall|j: int| 0 <= j < i ==> (#[trigger] v@[j])@ == pane_line(
                    visible_items(tv, n as nat)[j],
                    j == m - 1 || !kind_collapsed(visible_items(tv, n as nat)[j].2),
                ),
            decreases m - i,
        {
            let item = &self.inner.0[idx[i]];
            assert(tv[idx@[i as int] as int] == item@);
            let is_close = i == m - 1 || !item.is_collapsed();
            let line = pane_line_exec(item.indent, item.name.as_str(), is_close);
            v.push(line);
            i = i + 1;
        }
        v
    }
}

/// A line of the tree pane, computed.
fn pane_line_exec(indent: u8, name: &str, is_close: bool) -> (s: String)
    ensures
        s@ == crate::db::queries::spaces(indent as nat) + (if is_close { "└──"@ } else { "├──"@ }) + seq![' '] + name@,
{
    let mut v: Vec<char> = Vec::new();
    let mut i: u8 = 0;
    while i < indent
        invariant
            i <= indent,
            v@ == crate::db::queries::spaces(i as nat),
        decreases indent - i,
    {
        v.push(' ');
        i = i + 1;
        assert(v@ =~= crate::db::queries::spaces(i as nat));
    }
    let sign = if is_close {
        str_chars("└──")
    } else {
        str_chars("├──")
    };
    let ghost before = v@;
    let mut k: usize = 0;
    while k < sign.len()
        invariant
            k <= sign@.len(),
            v@ == before + sign@.take(k as int),
        decreases sign@.len() - k,
    {
        v.push(sign[k]);
        k = k + 1;
        assert(before + sign@.take(k as int) =~= before + sign@.take(k - 1) + seq![sign@[k - 1]]);
    }
    assert(sign@.take(sign@.len() as int) =~= sign@);
    v.push(' ');
    let c = str_chars(name);
    let ghost mid = v@;
    let mut j: usize = 0;
    while j < c.len()
        invariant
            j <= c@.len(),
            v@ == mid + c@.take(j as int),
        decreases c@.len() - j,
    {
        v.push(c[j]);
        j = j + 1;
        assert(mid + c@.take(j as int) =~= mid + c@.take(j - 1) + seq![c@[j - 1]]);
    }
    assert(c@.take(c@.len() as int) =~= c@);
    chars_to_string(v.as_slice())
}

/// The pane of the tree that the nested query answers.
pub struct DatabaseTreeWidget {
    pub tree: crate::db::queries::DatabaseTree,
}

impl DatabaseTreeWidget {
    /// What a key does: `q` and `Esc` leave, other keys are ignored.
    pub fn input<P>(&mut self, input: Input) -> (r: AppEventOutcome<P>)
        ensures
            r matches AppEventOutcome::Outcome(v) && v == tree_input_outcome(input),
    {
        tree_input(input)
    }

    /// The lines of the pane, from the top level on. The indent must not overflow.
    pub fn lines(&self) -> (v: Vec<String>)
        requires
            INDENT_OFFSET * depth(self.tree.0@) <= usize::MAX,
        ensures
            v@.map_values(|s: String| s@) == tree_lines(0, self.tree.0@),
    {
        let r = draw_tree(0, Vec::new(), &self.tree.0);
        assert(Seq::<String>::empty().map_values(|s: String| s@) + tree_lines(0, self.tree.0@) =~= tree_lines(0, self.tree.0@));
        r
    }
}

} // verus!
