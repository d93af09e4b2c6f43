//! Editing commands, the types that name them, and the lookup of the command that a
//! sequence of keys binds.
pub mod clip;
pub mod input;
pub mod modify;
pub mod revert;
pub mod search;
pub mod switch;

use vstd::prelude::*;
use std::collections::HashMap;
use crate::buffer::Buffer;
use crate::command::clip::{copy_post, paste_post, ClipboardType};
use crate::command::modify::{delete_post, others_unchanged};
use crate::command::revert::{redo_post, undo_post};
use crate::command::search::search_post;
use crate::command::switch::{
    normal_mode_post, search_mode_post, select_line_post, switch_post, visual_mode_post, Switch,
};
use crate::editor::Workspace;
use crate::event::{input_key, Input};
use crate::keymap::{lookup, mode_code, Keymap, Keymaps};
use crate::movement::{shift_doc_post, Shift, ShiftWordKind};
use crate::search::SearchOrder;

verus! {

broadcast use vstd::std_specs::hash::group_hash_axioms, vstd::std_specs::btree::group_btree_axioms,
    vstd::laws_cmp::group_laws_cmp;

/// The commands that keys can be bound to.
#[derive(Debug, Clone, Copy, PartialEq, Eq, Structural, Hash)]
pub enum CmdType {
    InsertMode,
    MoveLeft,
    MoveDown,
    MoveUp,
    MoveRight,
    MoveNextWordEnd,
    MoveNextWordStart,
    MovePrevWordStart,
    InsertModeLineEnd,
    InsertModeLineStart,
    InsertModeLineNext,
    InsertModeLinePrev,
    Delete,
    GoToTopLine,
    GoToBottomLine,
    GoToLineStart,
    GoToLineEnd,
    Undo,
    Redo,
    NormalMode,
    VisualMode,
    SelectLine,
    CopyLocal,
    CopyGlobal,
    PasteLocal,
    PasteGlobal,
    SearchMode,
    SearchNext,
    SearchPrev,
}

/// The number under which a command type is registered.
pub open spec fn cmd_code(c: CmdType) -> u8 {
    match c {
        CmdType::InsertMode => 0,
        CmdType::MoveLeft => 1,
        CmdType::MoveDown => 2,
        CmdType::MoveUp => 3,
        CmdType::MoveRight => 4,
        CmdType::MoveNextWordEnd => 5,
        CmdType::MoveNextWordStart => 6,
        CmdType::MovePrevWordStart => 7,
        CmdType::InsertModeLineEnd => 8,
        CmdType::InsertModeLineStart => 9,
        CmdType::InsertModeLineNext => 10,
        CmdType::InsertModeLinePrev => 11,
        CmdType::Delete => 12,
        CmdType::GoToTopLine => 13,
        CmdType::GoToBottomLine => 14,
        CmdType::GoToLineStart => 15,
        CmdType::GoToLineEnd => 16,
        CmdType::Undo => 17,
        CmdType::Redo => 18,
        CmdType::NormalMode => 19,
        CmdType::VisualMode => 20,
        CmdType::SelectLine => 21,
        CmdType::CopyLocal => 22,
        CmdType::CopyGlobal => 23,
        CmdType::PasteLocal => 24,
        CmdType::PasteGlobal => 25,
        CmdType::SearchMode => 26,
        CmdType::SearchNext => 27,
        CmdType::SearchPrev => 28,
    }
}

/// Distinct command types have distinct numbers.
proof fn lemma_cmd_code_injective(a: CmdType, b: CmdType)
    ensures
        cmd_code(a) == cmd_code(b) ==> a == b,
{
}

impl CmdType {
    /// The number under which this command type is registered.
    pub fn code(&self) -> (c: u8)
        ensures
            c == cmd_code(*self),
    {
        match self {
            CmdType::InsertMode => 0,
            CmdType::MoveLeft => 1,
            CmdType::MoveDown => 2,
            CmdType::MoveUp => 3,
            CmdType::MoveRight => 4,
            CmdType::MoveNextWordEnd => 5,
            CmdType::MoveNextWordStart => 6,
            CmdType::MovePrevWordStart => 7,
            CmdType::InsertModeLineEnd => 8,
            CmdType::InsertModeLineStart => 9,
            CmdType::InsertModeLineNext => 10,
            CmdType::InsertModeLinePrev => 11,
            CmdType::Delete => 12,
            CmdType::GoToTopLine => 13,
            CmdType::GoToBottomLine => 14,
            CmdType::GoToLineStart => 15,
            CmdType::GoToLineEnd => 16,
            CmdType::Undo => 17,
            CmdType::Redo => 18,
            CmdType::NormalMode => 19,
            CmdType::VisualMode => 20,
            CmdType::SelectLine => 21,
            CmdType::CopyLocal => 22,
            CmdType::CopyGlobal => 23,
            CmdType::PasteLocal => 24,
            CmdType::PasteGlobal => 25,
            CmdType::SearchMode => 26,
            CmdType::SearchNext => 27,
            CmdType::SearchPrev => 28,
        }
    }
}

/// What running command `c` does to the workspace.
pub open spec fn cmd_post(c: CmdType, w0: Workspace, w1: Workspace) -> bool {
    let d0 = w0.cur_doc();
    let d1 = w1.cur_doc();
    match c {
        CmdType::CopyLocal => copy_post(w0, w1, ClipboardType::Local),
        CmdType::CopyGlobal => copy_post(w0, w1, ClipboardType::Global),
        _ => others_unchanged(w0, w1) && match c {
            CmdType::InsertMode => switch_post(d0, d1, Switch::Inplace),
            CmdType::MoveLeft => shift_doc_post(d0, d1, Shift::Left),
            CmdType::MoveDown => shift_doc_post(d0, d1, Shift::Down(1)),
            CmdType::MoveUp => shift_doc_post(d0, d1, Shift::Up(1)),
            CmdType::MoveRight => shift_doc_post(d0, d1, Shift::Right),
            CmdType::MoveNextWordEnd => shift_doc_post(d0, d1, Shift::ByWord(ShiftWordKind::NextEnd)),
            CmdType::MoveNextWordStart => shift_doc_post(d0, d1, Shift::ByWord(ShiftWordKind::NextStart)),
            CmdType::MovePrevWordStart => shift_doc_post(d0, d1, Shift::ByWord(ShiftWordKind::PrevStart)),
            CmdType::InsertModeLineEnd => switch_post(d0, d1, Switch::LineEnd),
            CmdType::InsertModeLineStart => switch_post(d0, d1, Switch::LineStart),
            CmdType::InsertModeLineNext => switch_post(d0, d1, Switch::LineNext),
            CmdType::InsertModeLinePrev => switch_post(d0, d1, Switch::LinePrev),
            CmdType::Delete => delete_post(d0, d1),
            CmdType::GoToTopLine => shift_doc_post(d0, d1, Shift::Top),
            CmdType::GoToBottomLine => shift_doc_post(d0, d1, Shift::Bottom),
            CmdType::GoToLineStart => shift_doc_post(d0, d1, Shift::LineStart),
            CmdType::GoToLineEnd => shift_doc_post(d0, d1, Shift::LineEnd),
            CmdType::Undo => undo_post(d0, d1),
            CmdType::Redo => redo_post(d0, d1),
            CmdType::NormalMode => normal_mode_post(d0, d1),
            CmdType::VisualMode => visual_mode_post(d0, d1),
            CmdType::SelectLine => select_line_post(d0, d1),
            CmdType::PasteLocal => paste_post(d0, d1, w0.clipboard.local@),
            CmdType::PasteGlobal => paste_post(d0, d1, w0.clipboard.global@),
            CmdType::SearchMode => search_mode_post(d0, d1),
            CmdType::SearchNext => search_post(d0.buffer@, d1.buffer@, w0.search_registry, SearchOrder::Next),
            CmdType::SearchPrev => search_post(d0.buffer@, d1.buffer@, w0.search_registry, SearchOrder::Prev),
            _ => true,
        },
    }
}

/// A command of the registry.
#[derive(Debug, Clone, Copy, PartialEq, Eq, Structural)]
pub struct Command {
    type_: CmdType,
}

impl Command {
    /// The command of type `type_`.
    pub fn new(type_: CmdType) -> (c: Self)
        ensures
            c.kind() == type_,
    {
        Command { type_ }
    }

    /// Its type.
    pub closed spec fn kind(&self) -> CmdType {
        self.type_
    }

    /// Runs the command on the workspace.
    pub fn call(&self, ws: &mut Workspace)
        requires
            old(ws).wf(),
        ensures
            final(ws).wf(),
            cmd_post(self.kind(), *old(ws), *final(ws)),
    {
        match self.type_ {
            CmdType::InsertMode => crate::command::switch::insert_mode_inplace(ws),
            CmdType::MoveLeft => crate::movement::move_left(ws),
            CmdType::MoveDown => crate::movement::move_down(ws),
            CmdType::MoveUp => crate::movement::move_up(ws),
            CmdType::MoveRight => crate::movement::move_right(ws),
            CmdType::MoveNextWordEnd => crate::movement::move_next_word_end(ws),
            CmdType::MoveNextWordStart => crate::movement::move_next_word_start(ws),
            CmdType::MovePrevWordStart => crate::movement::move_prev_word_start(ws),
            CmdType::InsertModeLineEnd => crate::command::switch::insert_mode_line_end(ws),
            CmdType::InsertModeLineStart => crate::command::switch::insert_mode_line_start(ws),
            CmdType::InsertModeLineNext => crate::command::switch::insert_mode_line_next(ws),
            CmdType::InsertModeLinePrev => crate::command::switch::insert_mode_line_prev(ws),
            CmdType::Delete => crate::command::modify::delete(ws),
            CmdType::GoToTopLine => crate::movement::go_to_top_line(ws),
            CmdType::GoToBottomLine => crate::movement::go_to_bottom_line(ws),
            CmdType::GoToLineStart => crate::movement::go_to_line_start(ws),
            CmdType::GoToLineEnd => crate::movement::go_to_line_end(ws),
            CmdType::Undo => crate::command::revert::undo(ws),
            CmdType::Redo => crate::command::revert::redo(ws),
            CmdType::NormalMode => crate::command::switch::normal_mode(ws),
            CmdType::VisualMode => crate::command::switch::visual_mode(ws),
            CmdType::SelectLine => crate::command::switch::select_line(ws),
            CmdType::CopyLocal => crate::command::clip::copy_local(ws),
            CmdType::CopyGlobal => crate::command::clip::copy_global(ws),
            CmdType::PasteLocal => crate::command::clip::paste_local(ws),
            CmdType::PasteGlobal => crate::command::clip::paste_global(ws),
            CmdType::SearchMode => crate::command::switch::search_mode(ws),
            CmdType::SearchNext => crate::command::search::search_next(ws),
            CmdType::SearchPrev => crate::command::search::search_prev(ws),
        }
    }
}

/// Command type `c` is registered in `m`, under its number, with its command.
pub open spec fn registered(m: Map<u8, Command>, c: CmdType) -> bool {
    m.contains_key(cmd_code(c)) && m[cmd_code(c)].kind() == c
}

/// The commands, by the number of their type.
pub struct CommandRegistry {
    commands: HashMap<u8, Command>,
}

impl CommandRegistry {
    /// Every command type is registered, under its number, with its command.
    pub closed spec fn complete(&self) -> bool {
        forall|c: CmdType| #[trigger] registered(self.commands@, c)
    }

    /// The registry of all commands.
    #[verifier::rlimit(50)]
    pub fn register() -> (r: Self)
        ensures
            r.complete(),
    {
        let types: Vec<CmdType> = vec![
            CmdType::InsertMode,
            CmdType::MoveLeft,
            CmdType::MoveDown,
            CmdType::MoveUp,
            CmdType::MoveRight,
            CmdType::MoveNextWordEnd,
            CmdType::MoveNextWordStart,
            CmdType::MovePrevWordStart,
            CmdType::InsertModeLineEnd,
            CmdType::InsertModeLineStart,
            CmdType::InsertModeLineNext,
            CmdType::InsertModeLinePrev,
            CmdType::Delete,
            CmdType::GoToTopLine,
            CmdType::GoToBottomLine,
            CmdType::GoToLineEnd,
            CmdType::GoToLineStart,
            CmdType::Undo,
            CmdType::Redo,
            CmdType::VisualMode,
            CmdType::NormalMode,
            CmdType::SelectLine,
            CmdType::CopyLocal,
            CmdType::CopyGlobal,
            CmdType::PasteLocal,
            CmdType::PasteGlobal,
            CmdType::SearchMode,
            CmdType::SearchNext,
            CmdType::SearchPrev,
        ];
        let mut map: HashMap<u8, Command> = HashMap::new();
        let mut i: usize = 0;
        while i < types.len()
            invariant
                i <= types@.len(),
                forall|j: int| 0 <= j < i ==> #[trigger] registered(map@, types@[j]),
            decreases types@.len() - i,
        {
            let t = types[i];
            let c = Command::new(t);
            let ghost m0 = map@;
            map.insert(t.code(), c);
            proof {
                assert(map@ == m0.insert(cmd_code(t), c));
                assert forall|j: int| 0 <= j < i + 1 implies #[trigger] registered(map@, types@[j]) by {
                    if j < i {
                        lemma_cmd_code_injective(types@[j], t);
                        assert(registered(m0, types@[j]));
                    }
                }
            }
            i = i + 1;
        }
        proof {
            assert forall|c: CmdType| #[trigger] registered(map@, c) by {
                let j: int = match c {
                    CmdType::InsertMode => 0,
                    CmdType::MoveLeft => 1,
                    CmdType::MoveDown => 2,
                    CmdType::MoveUp => 3,
                    CmdType::MoveRight => 4,
                    CmdType::MoveNextWordEnd => 5,
                    CmdType::MoveNextWordStart => 6,
                    CmdType::MovePrevWordStart => 7,
                    CmdType::InsertModeLineEnd => 8,
                    CmdType::InsertModeLineStart => 9,
                    CmdType::InsertModeLineNext => 10,
                    CmdType::InsertModeLinePrev => 11,
                    CmdType::Delete => 12,
                    CmdType::GoToTopLine => 13,
                    CmdType::GoToBottomLine => 14,
                    CmdType::GoToLineEnd => 15,
                    CmdType::GoToLineStart => 16,
                    CmdType::Undo => 17,
                    CmdType::Redo => 18,
                    CmdType::VisualMode => 19,
                    CmdType::NormalMode => 20,
                    CmdType::SelectLine => 21,
                    CmdType::CopyLocal => 22,
                    CmdType::CopyGlobal => 23,
                    CmdType::PasteLocal => 24,
                    CmdType::PasteGlobal => 25,
                    CmdType::SearchMode => 26,
                    CmdType::SearchNext => 27,
                    CmdType::SearchPrev => 28,
                };
                assert(types@[j] == c);
                assert(registered(map@, types@[j]));
            }
        }
        CommandRegistry { commands: map }
    }

    /// The command of type `type_`.
    pub fn get(&self, type_: &CmdType) -> (r: Option<Command>)
        requires
            self.complete(),
        ensures
            r matches Some(c) && c.kind() == *type_,
    {
        assert(registered(self.commands@, *type_));
        match self.commands.get(&type_.code()) {
            Some(c) => Some(*c),
            None => None,
        }
    }
}

/// What a path of inputs leads to from `b`, computed.
pub fn lookup_path<'a>(b: &'a crate::keymap::Bindings, path: &Vec<u64>) -> (r: Option<&'a Keymap>)
    ensures
        r matches Some(k) ==> lookup(b.0@, path@) == Some(*k),
        r is None ==> lookup(b.0@, path@) is None,
{
    let n = path.len();
    if n == 0 {
        return None;
    }
    let mut cur: &crate::keymap::Bindings = b;
    let mut i: usize = 0;
    assert(path@.skip(0) =~= path@);
    loop
        invariant
            n == path@.len(),
            i < n,
            lookup(b.0@, path@) == lookup(cur.0@, path@.skip(i as int)),
        decreases n - i,
    {
        let k = path[i];
        let ghost rest = path@.skip(i as int);
        assert(rest[0] == k);
        match cur.0.get(&k) {
            None => {
                return None;
            },
            Some(km) => {
                if i == n - 1 {
                    assert(rest.len() == 1);
                    return Some(km);
                }
                match km {
                    Keymap::Node(nb) => {
                        assert(rest.drop_first() =~= path@.skip(i + 1));
                        cur = nb;
                    },
                    Keymap::Leaf(_) => {
                        return None;
                    },
                }
            },
        }
        i = i + 1;
    }
}

/// The path of inputs after `k`: one step further from a node that has `k`, the same
/// path at a command, the first step from the top, or none.
pub open spec fn next_path(b: Map<u64, Keymap>, cur: Option<Seq<u64>>, k: u64) -> Option<Seq<u64>> {
    match cur {
        Some(p) => match lookup(b, p) {
            Some(Keymap::Leaf(_)) => Some(p),
            Some(Keymap::Node(nb)) => if nb.0@.contains_key(k) {
                Some(p.push(k))
            } else {
                None
            },
            None => None,
        },
        None => if b.contains_key(k) {
            Some(seq![k])
        } else {
            None
        },
    }
}

/// Follows inputs through the key bindings of the current mode towards a command.
pub struct CommandFinder {
    registry: CommandRegistry,
    current: Option<Vec<u64>>,
}

impl CommandFinder {
    /// Every command type is registered.
    pub closed spec fn wf(&self) -> bool {
        self.registry.complete()
    }

    /// The inputs followed so far, if any.
    pub closed spec fn current_path(&self) -> Option<Seq<u64>> {
        match self.current {
            Some(v) => Some(v@),
            None => None,
        }
    }

    /// A finder at the top of the bindings.
    pub fn new() -> (f: Self)
        ensures
            f.wf(),
            f.current_path() is None,
    {
        CommandFinder { registry: CommandRegistry::register(), current: None }
    }

    /// Back to the top of the bindings.
    pub fn reset(&mut self)
        requires
            old(self).wf(),
        ensures
            final(self).wf(),
            final(self).current_path() is None,
    {
        self.current = None;
    }

    /// Follows `input` in the bindings of `mode` and answers the command reached, if any.
    /// With no bindings for the mode nothing changes.
    pub fn find(&mut self, keymaps: &Keymaps, mode: crate::buffer::Mode, input: Input) -> (r: Option<Command>)
        requires
            old(self).wf(),
        ensures
            final(self).wf(),
            !keymaps.0@.contains_key(mode_code(mode)) ==> r is None && final(self).current_path()
                == old(self).current_path(),
            keymaps.0@.contains_key(mode_code(mode)) ==> {
                let b = keymaps.0@[mode_code(mode)].0@;
                let p = next_path(b, old(self).current_path(), input_key(input));
                &&& final(self).current_path() == p
                &&& match p {
                    Some(q) => match lookup(b, q) {
                        Some(Keymap::Leaf(c)) => r matches Some(cmd) && cmd.kind() == c,
                        _ => r is None,
                    },
                    None => r is None,
                }
            },
    {
        let bindings = match keymaps.get(&mode) {
            Some(b) => b,
            None => return None,
        };
        let k = input.key();
        let next: Option<Vec<u64>> = match &self.current {
            Some(p) => match lookup_path(bindings, p) {
                Some(Keymap::Leaf(_)) => Some(p.clone()),
                Some(Keymap::Node(nb)) => {
                    if nb.0.contains_key(&k) {
                        let mut q = p.clone();
                        q.push(k);
                        Some(q)
                    } else {
                        None
                    }
                },
                None => None,
            },
            None => {
                if bindings.0.contains_key(&k) {
                    let mut q: Vec<u64> = Vec::new();
                    q.push(k);
                    Some(q)
                } else {
                    None
                }
            },
        };
        self.current = next;
        match &self.current {
            Some(q) => match lookup_path(bindings, q) {
                Some(Keymap::Leaf(c)) => self.registry.get(c),
                _ => None,
            },
            None => None,
        }
    }
}

} // verus!
