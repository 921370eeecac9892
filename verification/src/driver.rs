use vstd::prelude::*;
use vstd::string::StringExecFns;
use crate::command::{DriverDomCommand, CommandView, commands_view, commands_to_json, bulk_json};
use crate::dom_id::{DomId, root_id};
use crate::driver_data::{DriverData, DataView, EventCallback, EventKind};
use crate::visited::{VisitedNodeManager, hover_handlers};
use crate::hooks::{Hooks, HookAction};

verus! {

/// The document as plain values: what is known of its nodes, the commands
/// not yet sent, and the nodes under the mouse pointer.
pub struct DomState {
    pub data: DataView,
    pub commands: Seq<CommandView>,
    pub visited: Seq<u64>,
}

impl DomState {
    /// The state with `c` queued.
    pub open spec fn queue(self, c: CommandView) -> DomState {
        DomState { commands: self.commands.push(c), ..self }
    }

    /// The state after a flush: no command queued.
    pub open spec fn flushed(self) -> DomState {
        DomState { commands: Seq::empty(), ..self }
    }

    /// What a flush sends: nothing when no command is queued, else the
    /// queued commands as one JSON array.
    pub open spec fn flush_output(self) -> Option<Seq<char>> {
        if self.commands.len() == 0 {
            None
        } else {
            Some(bulk_json(self.commands))
        }
    }

    /// The node that receives a key press: the given one, else the root.
    pub open spec fn keydown_target(dom_id: Option<u64>) -> u64 {
        match dom_id {
            Some(id) => id,
            None => root_id(),
        }
    }

    /// The next step of delivering a key press, given the keyboard hooks
    /// taken when the press arrived, after `hooks_run` of them have run and
    /// the last of them answered `stopped`.
    pub open spec fn keydown_step(
        self,
        hooks: Seq<u64>,
        dom_id: Option<u64>,
        hooks_run: nat,
        stopped: bool,
    ) -> KeyDownStep {
        if stopped {
            KeyDownStep::Finished { stop_propagation: true }
        } else if hooks_run < hooks.len() {
            KeyDownStep::RunHook { handler: hooks[hooks_run as int] }
        } else {
            match self.data.find_event(DomState::keydown_target(dom_id), EventKind::KeyDown) {
                Some(h) => KeyDownStep::RunHandler { handler: h },
                None => KeyDownStep::Finished { stop_propagation: false },
            }
        }
    }

    /// The nodes under the pointer when it is over `dom_id`, or none.
    pub open spec fn hovered(self, dom_id: Option<u64>) -> Seq<u64> {
        match dom_id {
            Some(id) => self.data.all_nodes(id),
            None => Seq::empty(),
        }
    }
}

/// What to do next while a key press is delivered.
#[derive(Clone, Copy, PartialEq, Eq, Structural, Debug)]
pub enum KeyDownStep {
    /// Run this keyboard hook and report whether it stopped the event.
    RunHook { handler: u64 },
    /// Run the target's key handler; its answer is the answer of the press.
    RunHandler { handler: u64 },
    /// Delivery is over; the answer is whether the event was stopped.
    Finished { stop_propagation: bool },
}

/// Records the changes to the document and sends them in batches, and
/// decides which handlers the browser's events reach.
pub struct DriverBrowserDom {
    data: DriverData,
    commands: Vec<DriverDomCommand>,
    current_visited: VisitedNodeManager,
}

impl View for DriverBrowserDom {
    type V = DomState;

    closed spec fn view(&self) -> DomState {
        DomState {
            data: self.data@,
            commands: commands_view(self.commands@),
            visited: self.current_visited@,
        }
    }
}

impl DriverBrowserDom {
    /// A document whose root node, a `div`, is created and mounted, and
    /// whose queued changes are sent at the end of every transaction: a
    /// `FlushDriver` hook is appended to the hooks that fire when a
    /// transaction ends (see `fire_hook`). Nothing fires when a transaction
    /// starts.
    pub fn new(hooks: &mut Hooks) -> (d: DriverBrowserDom)
        ensures
            final(hooks)@.after == old(hooks)@.after.push(HookAction::FlushDriver),
            final(hooks)@.before == old(hooks)@.before,
            d@.data.elements == Map::<u64, crate::driver_data::NodeEvents>::empty().insert(
                root_id(),
                crate::driver_data::NodeEvents::spec_empty(),
            ),
            d@.data.parents == Map::<u64, u64>::empty(),
            d@.data.hooks == Seq::<(u64, u64)>::empty(),
            d@.commands == seq![
                CommandView::CreateNode { id: root_id(), name: "div"@ },
                CommandView::MountNode { id: root_id() },
            ],
            d@.visited == Seq::<u64>::empty(),
    {
        let mut d = DriverBrowserDom {
            data: DriverData::new(),
            commands: Vec::new(),
            current_visited: VisitedNodeManager::new(),
        };
        let root = DomId::root();
        d.create_node(root, "div");
        d.mount_node(root);
        assert(d@.commands =~= seq![
            CommandView::CreateNode { id: root_id(), name: "div"@ },
            CommandView::MountNode { id: root_id() },
        ]);
        hooks.on_after_transaction(HookAction::FlushDriver);
        d
    }

    /// The click handler that a press of the mouse button on `dom_id` runs.
    pub fn export_dom_mousedown(&self, dom_id: u64) -> (h: Option<u64>)
        ensures
            h == self@.data.find_event(dom_id, EventKind::Click),
            self@.data.parents.dom().finite(),
    {
        self.data.find_event(dom_id, EventKind::Click)
    }

    /// Moves the pointer over `dom_id` (off the document for `None`);
    /// returns the leave and enter handlers to run, in order.
    pub fn export_dom_mouseover(&mut self, dom_id: Option<u64>) -> (hs: Vec<u64>)
        ensures
            final(self)@ == (DomState { visited: old(self)@.hovered(dom_id), ..old(self)@ }),
            hs@ == hover_handlers(
                old(self)@.data.elements,
                old(self)@.visited,
                old(self)@.hovered(dom_id),
            ),
    {
        match dom_id {
            None => self.current_visited.clear(&self.data),
            Some(dom_id) => {
                let nodes = self.data.find_all_nodes(dom_id);
                self.current_visited.push_new_nodes(&self.data, nodes)
            },
        }
    }

    /// The keyboard hooks, in registration order, as a key press arrives:
    /// the press runs these, whatever the hooks do to the list meanwhile.
    pub fn keydown_hooks(&self) -> (hooks: Vec<u64>)
        ensures
            hooks@ == self@.data.hook_handlers(),
    {
        self.data.find_hook_keydown()
    }

    /// The next step of delivering a key press on `dom_id` (the root for
    /// `None`): the keyboard hooks taken when it arrived (`hooks`) run first,
    /// in order, until one stops the event; then the key handler of the
    /// target or of its nearest ancestor that has one.
    pub fn export_dom_keydown(
        &self,
        hooks: &Vec<u64>,
        dom_id: Option<u64>,
        hooks_run: usize,
        stopped: bool,
    ) -> (step: KeyDownStep)
        ensures
            step == self@.keydown_step(hooks@, dom_id, hooks_run as nat, stopped),
    {
        if stopped {
            return KeyDownStep::Finished { stop_propagation: true };
        }
        if hooks_run < hooks.len() {
            return KeyDownStep::RunHook { handler: hooks[hooks_run] };
        }
        let id = match dom_id {
            None => DomId::root(),
            Some(id) => DomId::from_u64(id),
        };
        match self.data.find_event(id.to_u64(), EventKind::KeyDown) {
            Some(h) => KeyDownStep::RunHandler { handler: h },
            None => KeyDownStep::Finished { stop_propagation: false },
        }
    }

    /// The input handler that a change of the text in `dom_id` runs.
    pub fn export_dom_oninput(&self, dom_id: u64) -> (h: Option<u64>)
        ensures
            h == self@.data.find_event(dom_id, EventKind::Input),
            self@.data.parents.dom().finite(),
    {
        self.data.find_event(dom_id, EventKind::Input)
    }

    /// The drop handler that a file dropped on `dom_id` runs.
    pub fn export_dom_ondropfile(&self, dom_id: u64) -> (h: Option<u64>)
        ensures
            h == self@.data.find_event(dom_id, EventKind::DropFile),
            self@.data.parents.dom().finite(),
    {
        self.data.find_event(dom_id, EventKind::DropFile)
    }

    fn mount_node(&mut self, id: DomId)
        ensures
            final(self)@ == old(self)@.queue(CommandView::MountNode { id: id.id }),
    {
        self.add_command(DriverDomCommand::MountNode { id });
    }

    fn add_command(&mut self, command: DriverDomCommand)
        ensures
            final(self)@ == old(self)@.queue(command@),
    {
        self.commands.push(command);
        assert(commands_view(self.commands@) =~= commands_view(old(self).commands@).push(command@));
    }

    pub fn create_node(&mut self, id: DomId, name: &str)
        ensures
            final(self)@ == (DomState { data: old(self)@.data.create_node(id.id), ..old(self)@ }).queue(
                CommandView::CreateNode { id: id.id, name: name@ },
            ),
    {
        self.data.create_node(id.id);
        self.add_command(DriverDomCommand::CreateNode { id, name: String::from_str(name) });
    }

    pub fn rename_node(&mut self, id: DomId, name: &str)
        ensures
            final(self)@ == old(self)@.queue(CommandView::RenameNode { id: id.id, new_name: name@ }),
    {
        self.add_command(DriverDomCommand::RenameNode { id, new_name: String::from_str(name) })
    }

    pub fn create_text(&mut self, id: DomId, value: &str)
        ensures
            final(self)@ == old(self)@.queue(CommandView::CreateText { id: id.id, value: value@ }),
    {
        self.add_command(DriverDomCommand::CreateText { id, value: String::from_str(value) })
    }

    pub fn update_text(&mut self, id: DomId, value: &str)
        ensures
            final(self)@ == old(self)@.queue(CommandView::UpdateText { id: id.id, value: value@ }),
    {
        self.add_command(DriverDomCommand::UpdateText { id, value: String::from_str(value) });
    }

    pub fn set_attr(&mut self, id: DomId, name: &str, value: &str)
        ensures
            final(self)@ == old(self)@.queue(
                CommandView::SetAttr { id: id.id, name: name@, value: value@ },
            ),
    {
        self.add_command(
            DriverDomCommand::SetAttr { id, name: String::from_str(name), value: String::from_str(value) },
        );
    }

    pub fn remove_attr(&mut self, id: DomId, name: &str)
        ensures
            final(self)@ == old(self)@.queue(CommandView::RemoveAttr { id: id.id, name: name@ }),
    {
        self.add_command(DriverDomCommand::RemoveAttr { id, name: String::from_str(name) });
    }

    pub fn remove_text(&mut self, id: DomId)
        ensures
            final(self)@ == (DomState { data: old(self)@.data.remove_text(id.id), ..old(self)@ }).queue(
                CommandView::RemoveText { id: id.id },
            ),
    {
        self.data.remove_text(id.id);
        self.add_command(DriverDomCommand::RemoveText { id });
    }

    pub fn remove_node(&mut self, id: DomId)
        ensures
            final(self)@ == (DomState { data: old(self)@.data.remove_node(id.id), ..old(self)@ }).queue(
                CommandView::RemoveNode { id: id.id },
            ),
    {
        self.data.remove_node(id.id);
        self.add_command(DriverDomCommand::RemoveNode { id });
    }

    pub fn insert_before(&mut self, parent: DomId, child: DomId, ref_id: Option<DomId>)
        ensures
            final(self)@ == (DomState {
                data: old(self)@.data.set_parent(child.id, parent.id),
                ..old(self)@
            }).queue(
                CommandView::InsertBefore {
                    parent: parent.id,
                    child: child.id,
                    ref_id: match ref_id {
                        Some(r) => Some(r.id),
                        None => None,
                    },
                },
            ),
    {
        self.data.set_parent(child.id, parent.id);
        self.add_command(DriverDomCommand::InsertBefore { parent, child, ref_id });
    }

    pub fn insert_css(&mut self, selector: &str, value: &str)
        ensures
            final(self)@ == old(self)@.queue(
                CommandView::InsertCss { selector: selector@, value: value@ },
            ),
    {
        self.add_command(
            DriverDomCommand::InsertCss { selector: String::from_str(selector), value: String::from_str(value) },
        );
    }

    pub fn create_comment(&mut self, id: DomId, value: String)
        ensures
            final(self)@ == old(self)@.queue(CommandView::CreateComment { id: id.id, value: value@ }),
    {
        self.add_command(DriverDomCommand::CreateComment { id, value })
    }

    pub fn update_comment(&mut self, id: DomId, value: String)
        ensures
            final(self)@ == old(self)@.queue(CommandView::UpdateComment { id: id.id, value: value@ }),
    {
        self.add_command(DriverDomCommand::UpdateComment { id, value });
    }

    pub fn remove_comment(&mut self, id: DomId)
        ensures
            final(self)@ == (DomState { data: old(self)@.data.remove_text(id.id), ..old(self)@ }).queue(
                CommandView::RemoveComment { id: id.id },
            ),
    {
        self.data.remove_text(id.id);
        self.add_command(DriverDomCommand::RemoveComment { id });
    }

    /// Takes the queued commands; returns them as one JSON array to send,
    /// or `None` when none was queued.
    pub fn flush_dom_changes(&mut self) -> (out: Option<String>)
        ensures
            final(self)@ == old(self)@.flushed(),
            match out {
                Some(s) => old(self)@.flush_output() == Some(s@),
                None => old(self)@.flush_output() is None,
            },
    {
        let mut state: Vec<DriverDomCommand> = Vec::new();
        std::mem::swap(&mut state, &mut self.commands);
        assert(commands_view(self.commands@) =~= Seq::<CommandView>::empty());
        if state.len() > 0 {
            Some(commands_to_json(&state))
        } else {
            None
        }
    }

    /// Fires one transaction hook: a `FlushDriver` hook flushes this driver
    /// and returns the batch to send, as `flush_dom_changes` does; any other
    /// hook is the caller's and changes nothing here.
    pub fn fire_hook(&mut self, hook: HookAction) -> (out: Option<String>)
        ensures
            hook == HookAction::FlushDriver ==> {
                &&& final(self)@ == old(self)@.flushed()
                &&& match out {
                    Some(s) => old(self)@.flush_output() == Some(s@),
                    None => old(self)@.flush_output() is None,
                }
            },
            hook != HookAction::FlushDriver ==> final(self)@ == old(self)@ && out is None,
    {
        match hook {
            HookAction::FlushDriver => self.flush_dom_changes(),
            HookAction::Callback { .. } => None,
        }
    }

    /// Sets or clears one handler of element `id`.
    pub fn set_event(&mut self, id: DomId, callback: EventCallback)
        ensures
            final(self)@ == (DomState { data: old(self)@.data.set_event(id.id, callback), ..old(self)@ }),
    {
        self.data.set_event(id.id, callback);
    }
}

} // verus!
