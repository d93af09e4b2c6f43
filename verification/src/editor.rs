//! The workspace that commands act on: the open documents, the current one, the
//! clipboard and the search state.
use vstd::prelude::*;
use crate::buffer::{BufferView, Mode};
use crate::chars::{chars_to_string, str_chars};
use crate::command::modify::others_unchanged;
use crate::command::input::{input_outcome, insert_key_post};
use crate::command::search::{search_key_outcome, search_key_post};
use crate::command::{cmd_post, next_path, CmdType, CommandFinder};
use crate::document::{Document, DocumentId, IdCounter};
use crate::event::{input_key, EventOutcome, Input};
use crate::keymap::{lookup, mode_code, Bindings, Keymap, Keymaps};
use crate::renderer::{Cursor, Viewport};
use crate::search::SearchRegistry;
use crate::text::byte_len;

verus! {

/// Text copied for pasting: a local register, and the text exchanged with the system
/// clipboard, which the application reads before an input and writes after one.
pub struct Clipboard {
    pub local: String,
    pub global: String,
    /// Text copied to the system clipboard and not yet written there.
    pub outgoing: Option<String>,
}

impl Clipboard {
    /// Empty registers.
    pub fn new() -> (c: Self)
        ensures
            c.local@ == Seq::<char>::empty(),
            c.global@ == Seq::<char>::empty(),
            c.outgoing is None,
    {
        Clipboard { local: String::new(), global: String::new(), outgoing: None }
    }

    /// Copies `text` to the local register.
    pub fn set_local(&mut self, text: String)
        ensures
            final(self).local@ == text@,
            final(self).global@ == old(self).global@,
            final(self).outgoing == old(self).outgoing,
    {
        self.local = text;
    }

    /// The local register.
    pub fn get_local(&self) -> (s: String)
        ensures
            s@ == self.local@,
    {
        self.local.clone()
    }

    /// Copies `text` to the system clipboard.
    pub fn set_global(&mut self, text: String)
        ensures
            final(self).local@ == old(self).local@,
            final(self).global@ == text@,
            final(self).outgoing matches Some(t) && t@ == text@,
    {
        self.global = text.clone();
        self.outgoing = Some(text);
    }

    /// The text of the system clipboard, as last read.
    pub fn get_global(&self) -> (s: String)
        ensures
            s@ == self.global@,
    {
        self.global.clone()
    }
}

/// The open documents, the current one, the clipboard and the search state.
pub struct Workspace {
    pub documents: Vec<Document>,
    pub current: usize,
    pub ids: IdCounter,
    pub clipboard: Clipboard,
    pub search_registry: SearchRegistry,
    /// The pattern being typed in search mode.
    pub search_buffer: Vec<char>,
}

impl Default for Workspace {
    /// A workspace without documents.
    fn default() -> (ws: Self)
        ensures
            ws.documents@.len() == 0,
            ws.ids.next == 1,
            ws.search_buffer@.len() == 0,
            ws.search_registry.wf(),
            ws.search_registry.pattern().len() == 0,
    {
        Workspace::new()
    }
}

impl Workspace {
    /// Every document is well formed, the search table matches its pattern, and the
    /// current document exists.
    pub open spec fn wf(&self) -> bool {
        &&& self.current < self.documents@.len()
        &&& forall|i: int| 0 <= i < self.documents@.len() ==> #[trigger] self.documents@[i].wf()
        &&& self.search_registry.wf()
    }

    /// The current document.
    pub open spec fn cur_doc(&self) -> Document {
        self.documents@[self.current as int]
    }

    /// A workspace without documents, with empty clipboard registers and no search
    /// pattern.
    pub fn new() -> (ws: Self)
        ensures
            ws.documents@.len() == 0,
            ws.current == 0,
            ws.ids.next == 1,
            ws.clipboard.local@ == Seq::<char>::empty(),
            ws.clipboard.global@ == Seq::<char>::empty(),
            ws.clipboard.outgoing is None,
            ws.search_buffer@.len() == 0,
            ws.search_registry.wf(),
            ws.search_registry.pattern().len() == 0,
    {
        Workspace {
            documents: Vec::new(),
            current: 0,
            ids: IdCounter::new(),
            clipboard: Clipboard::new(),
            search_registry: SearchRegistry::default(),
            search_buffer: Vec::new(),
        }
    }

    /// Opens `doc` and makes it the current document.
    pub fn add_doc(&mut self, doc: Document)
        requires
            doc.wf(),
            forall|i: int| 0 <= i < old(self).documents@.len() ==> #[trigger] old(self).documents@[i].wf(),
            old(self).search_registry.wf(),
        ensures
            final(self).wf(),
            final(self).documents@ == old(self).documents@.push(doc),
            final(self).current == old(self).documents@.len(),
            final(self).clipboard == old(self).clipboard,
            final(self).search_buffer == old(self).search_buffer,
            final(self).search_registry == old(self).search_registry,
            final(self).ids == old(self).ids,
    {
        self.documents.push(doc);
        self.current = self.documents.len() - 1;
    }

    /// The clipboard.
    pub fn clipboard(&mut self) -> (c: &mut Clipboard)
        ensures
            *c == old(self).clipboard,
            *final(self) == (Workspace { clipboard: *final(c), ..*old(self) }),
    {
        &mut self.clipboard
    }

    /// Makes the typed pattern, if any, the search pattern, and empties the search buffer.
    pub fn apply_search(&mut self)
        requires
            old(self).search_registry.wf(),
        ensures
            final(self).search_registry.wf(),
            final(self).documents == old(self).documents,
            final(self).current == old(self).current,
            final(self).clipboard == old(self).clipboard,
            final(self).ids == old(self).ids,
            old(self).search_buffer@.len() == 0 ==> final(self).search_registry == old(
                self,
            ).search_registry && final(self).search_buffer == old(self).search_buffer,
            old(self).search_buffer@.len() > 0 ==> final(self).search_registry.pattern() == old(
                self,
            ).search_buffer@ && final(self).search_buffer@.len() == 0,
    {
        if self.search_buffer.len() > 0 {
            let pattern = chars_to_string(self.search_buffer.as_slice());
            // The pattern's UTF-8 length is that of bytes in memory, so it fits in a `usize`.
            let byte_count = pattern.as_str().as_bytes().len();
            assert(byte_count == byte_len(pattern@));
            self.search_buffer = Vec::new();
            self.search_registry = SearchRegistry::new(pattern);
        }
    }

    /// The search state.
    pub fn search_registry(&self) -> (r: &SearchRegistry)
        ensures
            *r == self.search_registry,
    {
        &self.search_registry
    }

    /// The current document.
    pub fn cur(&self) -> (d: &Document)
        requires
            self.current < self.documents@.len(),
        ensures
            *d == self.cur_doc(),
    {
        &self.documents[self.current]
    }

    /// The current document, for changes.
    pub fn cur_mut(&mut self) -> (d: &mut Document)
        requires
            old(self).current < old(self).documents@.len(),
        ensures
            *d == old(self).cur_doc(),
            final(self).documents@ == old(self).documents@.update(old(self).current as int, *final(d)),
            final(self).current == old(self).current,
            final(self).clipboard == old(self).clipboard,
            final(self).search_registry == old(self).search_registry,
            final(self).search_buffer == old(self).search_buffer,
            final(self).ids == old(self).ids,
    {
        &mut self.documents[self.current]
    }
}

/// The workspace after `w_mid` when the first line shown follows the cursor within
/// `height` lines.
pub open spec fn vscroll_followed(w_mid: Workspace, w1: Workspace, height: usize) -> bool {
    let d = w_mid.cur_doc();
    let b = d.buffer@;
    let d1 = w1.cur_doc();
    &&& others_unchanged(w_mid, w1)
    &&& d1.history == d.history
    &&& d1.transaction == d.transaction
    &&& d1.id == d.id
    &&& d1.meta == d.meta
    &&& if b.vscroll + height >= 1 && b.vscroll + height <= usize::MAX && (height == 0 ==> b.index < usize::MAX) {
        d1.buffer@ == (BufferView {
            vscroll: if b.index < b.vscroll {
                b.index
            } else if b.index > b.vscroll + height - 1 {
                (b.index - height + 1) as nat
            } else {
                b.vscroll
            },
            ..b
        })
    } else {
        d1.buffer@ == b
    }
}

/// The workspace after `w_mid` once a key answered `r`: the first line shown follows
/// the cursor after a change, and nothing moves otherwise.
pub open spec fn key_followed(w_mid: Workspace, w1: Workspace, r: EventOutcome, height: usize) -> bool {
    if r == EventOutcome::Render {
        vscroll_followed(w_mid, w1, height)
    } else {
        w1 == w_mid
    }
}

/// The editor: a workspace shown in a viewport, and the key bindings that drive it.
pub struct Editor {
    pub workspace: Workspace,
    pub viewport: Viewport,
    pub keymaps: Keymaps,
    pub command: CommandFinder,
}

impl Default for Editor {
    /// An editor on one empty scratch document.
    fn default() -> (e: Self)
        ensures
            e.wf(),
            e.workspace.documents@.len() == 1,
            e.workspace.cur_doc().buffer@.text.len() == 0,
    {
        Editor::new_scratch()
    }
}

impl Editor {
    /// The workspace is well formed and every command is registered.
    pub open spec fn wf(&self) -> bool {
        self.workspace.wf() && self.command.wf()
    }

    /// The key bindings.
    pub open spec fn keymaps_view(&self) -> Map<u8, Bindings> {
        self.keymaps.0@
    }

    /// The inputs followed so far towards a command.
    pub open spec fn pending_keys(&self) -> Option<Seq<u64>> {
        self.command.current_path()
    }

    /// An editor on `workspace`, with an empty viewport and the default bindings.
    pub fn new(workspace: Workspace) -> (e: Self)
        requires
            workspace.wf(),
        ensures
            e.wf(),
            e.workspace == workspace,
            e.viewport == (Viewport { width: 0, height: 0 }),
            e.pending_keys() is None,
    {
        Editor {
            workspace,
            viewport: Viewport::default(),
            keymaps: Keymaps::init(),
            command: CommandFinder::new(),
        }
    }

    /// An editor on one empty document.
    pub fn new_scratch() -> (e: Self)
        ensures
            e.wf(),
            e.workspace.documents@.len() == 1,
            e.workspace.cur_doc().buffer@.text.len() == 0,
    {
        let mut workspace = Workspace::new();
        let id = DocumentId::next(&mut workspace.ids);
        workspace.add_doc(Document::new(id));
        Editor::new(workspace)
    }

    /// An editor on `doc`.
    pub fn with_document(doc: Document) -> (e: Self)
        requires
            doc.wf(),
        ensures
            e.wf(),
            e.workspace.documents@ == seq![doc],
    {
        let mut workspace = Workspace::new();
        workspace.add_doc(doc);
        Editor::new(workspace)
    }

    /// Where the cursor is drawn: its offset kept within the width, its line counted from
    /// the first line shown and kept within the height; the bounds `width - 1` and
    /// `height - 1` need a viewport that is not empty.
    pub fn cursor(&self) -> (c: Cursor)
        requires
            self.workspace.wf(),
            self.viewport.width > 0,
            self.viewport.height > 0,
        ensures
            ({
                let b = self.workspace.cur_doc().buffer@;
                let x = if b.offset <= self.viewport.width - 1 { b.offset as int } else { self.viewport.width - 1 };
                let y0 = if b.index >= b.vscroll { b.index - b.vscroll } else { 0 };
                let y = if y0 <= self.viewport.height - 1 { y0 } else { self.viewport.height - 1 };
                &&& c.x == (x as u16)
                &&& c.y == (y as u16)
                &&& c.mode == b.mode
            }),
    {
        let buf = self.workspace.cur().buf();
        let mode = buf.mode();
        let (y, x) = buf.pos();
        let x = if x <= self.viewport.width - 1 {
            x
        } else {
            self.viewport.width - 1
        };
        let vs = buf.vscroll();
        let y = if y >= vs {
            y - vs
        } else {
            0
        };
        let y = if y <= self.viewport.height - 1 {
            y
        } else {
            self.viewport.height - 1
        };
        Cursor { x: x as u16, y: y as u16, mode }
    }

    /// Keeps the cursor line among the lines shown, where the bound can be computed.
    fn follow_cursor(&mut self)
        requires
            old(self).wf(),
        ensures
            final(self).wf(),
            final(self).viewport == old(self).viewport,
            final(self).keymaps == old(self).keymaps,
            final(self).command == old(self).command,
            vscroll_followed(old(self).workspace, final(self).workspace, old(self).viewport.height),
    {
        let height = self.viewport.height;
        let ghost w0 = self.workspace;
        proof {
            assert(w0.documents@[w0.current as int].wf());
        }
        let doc = self.workspace.cur_mut();
        let vs = doc.buffer.vscroll();
        let idx = doc.buffer.index();
        if vs > usize::MAX - height || vs + height < 1 || (height == 0 && idx == usize::MAX) {
            return;
        }
        doc.buffer.update_vscroll(height);
    }

    /// Handles a key: a command bound to the keys followed so far runs and the keys are
    /// forgotten; else insert mode and search mode handle the key; else it is ignored.
    /// After a change the first line shown follows the cursor.
    pub fn input(&mut self, input: Input) -> (r: EventOutcome)
        requires
            old(self).wf(),
        ensures
            final(self).wf(),
            final(self).viewport == old(self).viewport,
            ({
                let w0 = old(self).workspace;
                let mode = w0.cur_doc().buffer@.mode;
                let km = old(self).keymaps_view();
                let found = km.contains_key(mode_code(mode)) && match next_path(
                    km[mode_code(mode)].0@,
                    old(self).pending_keys(),
                    input_key(input),
                ) {
                    Some(q) => lookup(km[mode_code(mode)].0@, q) matches Some(Keymap::Leaf(_)),
                    None => false,
                };
                found ==> {
                    &&& r == EventOutcome::Render
                    &&& final(self).pending_keys() is None
                    &&& exists|w_mid: Workspace| #![auto] cmd_post(
                        match lookup(km[mode_code(mode)].0@, next_path(km[mode_code(mode)].0@, old(self).pending_keys(), input_key(input))->0) {
                            Some(Keymap::Leaf(c)) => c,
                            _ => CmdType::InsertMode,
                        },
                        w0,
                        w_mid,
                    ) && vscroll_followed(w_mid, final(self).workspace, old(self).viewport.height)
                }
            }),
            ({
                let w0 = old(self).workspace;
                let w1 = final(self).workspace;
                let h = old(self).viewport.height;
                let mode = w0.cur_doc().buffer@.mode;
                let km = old(self).keymaps_view();
                let found = km.contains_key(mode_code(mode)) && match next_path(
                    km[mode_code(mode)].0@,
                    old(self).pending_keys(),
                    input_key(input),
                ) {
                    Some(q) => lookup(km[mode_code(mode)].0@, q) matches Some(Keymap::Leaf(_)),
                    None => false,
                };
                !found ==> {
                    &&& final(self).pending_keys() == if km.contains_key(mode_code(mode)) {
                        next_path(km[mode_code(mode)].0@, old(self).pending_keys(), input_key(input))
                    } else {
                        old(self).pending_keys()
                    }
                    &&& mode == Mode::Insert ==> r == input_outcome(input) && exists|w_mid: Workspace|
                        #[trigger] insert_key_post(w0, w_mid, input) && key_followed(w_mid, w1, r, h)
                    &&& mode == Mode::Search ==> r == search_key_outcome(input) && exists|w_mid: Workspace|
                        #[trigger] search_key_post(w0, w_mid, input) && key_followed(w_mid, w1, r, h)
                    &&& mode != Mode::Insert && mode != Mode::Search ==> r == EventOutcome::Ignore
                        && w1 == w0
                }
            }),
            final(self).keymaps_view() == old(self).keymaps_view(),
    {
        let ghost w0 = self.workspace;
        let mode = self.workspace.cur().buf().mode();
        let command = self.command.find(&self.keymaps, mode, input);
        let outcome = match command {
            Some(cmd) => {
                cmd.call(&mut self.workspace);
                self.command.reset();
                EventOutcome::Render
            },
            None => {
                if mode == Mode::Insert {
                    crate::command::input::on_key(&mut self.workspace, input)
                } else if mode == Mode::Search {
                    crate::command::search::on_key(&mut self.workspace, input)
                } else {
                    EventOutcome::Ignore
                }
            },
        };
        let ghost w_mid = self.workspace;
        if outcome == EventOutcome::Render {
            self.follow_cursor();
        }
        proof {
            if command is None {
                if mode == Mode::Insert {
                    assert(insert_key_post(w0, w_mid, input));
                } else if mode == Mode::Search {
                    assert(search_key_post(w0, w_mid, input));
                }
            }
        }
        outcome
    }
}

} // verus!
