use vstd::prelude::*;
use std::collections::HashMap;

verus! {

broadcast use vstd::std_specs::hash::group_hash_axioms;

/// The kinds of event that a node can handle.
#[derive(Clone, Copy, PartialEq, Eq, Structural, Debug)]
pub enum EventKind {
    Click,
    Input,
    MouseEnter,
    MouseLeave,
    KeyDown,
    DropFile,
}

/// The handlers registered on one element, each named by the number that
/// its owner gave it.
#[derive(Clone, Copy, Debug)]
pub struct NodeEvents {
    pub on_click: Option<u64>,
    pub on_input: Option<u64>,
    pub on_mouse_enter: Option<u64>,
    pub on_mouse_leave: Option<u64>,
    pub on_keydown: Option<u64>,
    pub on_dropfile: Option<u64>,
}

/// A change of one handler of a node: `Some` sets it, `None` clears it.
/// `HookKeyDown` registers a handler that sees every key press before the
/// focused node's own handler does.
#[derive(Clone, Copy, Debug)]
pub enum EventCallback {
    OnClick { callback: Option<u64> },
    OnInput { callback: Option<u64> },
    OnMouseEnter { callback: Option<u64> },
    OnMouseLeave { callback: Option<u64> },
    OnKeyDown { callback: Option<u64> },
    OnDropFile { callback: Option<u64> },
    HookKeyDown { callback: Option<u64> },
}

impl NodeEvents {
    /// The handler of the given kind.
    pub open spec fn handler(self, kind: EventKind) -> Option<u64> {
        match kind {
            EventKind::Click => self.on_click,
            EventKind::Input => self.on_input,
            EventKind::MouseEnter => self.on_mouse_enter,
            EventKind::MouseLeave => self.on_mouse_leave,
            EventKind::KeyDown => self.on_keydown,
            EventKind::DropFile => self.on_dropfile,
        }
    }

    /// No handler at all.
    pub open spec fn spec_empty() -> NodeEvents {
        NodeEvents {
            on_click: None,
            on_input: None,
            on_mouse_enter: None,
            on_mouse_leave: None,
            on_keydown: None,
            on_dropfile: None,
        }
    }

    /// These handlers with one of them changed as `cb` says (a keyboard hook
    /// is not kept here and changes nothing).
    pub open spec fn with_callback(self, cb: EventCallback) -> NodeEvents {
        match cb {
            EventCallback::OnClick { callback } => NodeEvents { on_click: callback, ..self },
            EventCallback::OnInput { callback } => NodeEvents { on_input: callback, ..self },
            EventCallback::OnMouseEnter { callback } => NodeEvents { on_mouse_enter: callback, ..self },
            EventCallback::OnMouseLeave { callback } => NodeEvents { on_mouse_leave: callback, ..self },
            EventCallback::OnKeyDown { callback } => NodeEvents { on_keydown: callback, ..self },
            EventCallback::OnDropFile { callback } => NodeEvents { on_dropfile: callback, ..self },
            EventCallback::HookKeyDown { .. } => self,
        }
    }

    pub fn empty() -> (e: NodeEvents)
        ensures
            e == NodeEvents::spec_empty(),
    {
        NodeEvents {
            on_click: None,
            on_input: None,
            on_mouse_enter: None,
            on_mouse_leave: None,
            on_keydown: None,
            on_dropfile: None,
        }
    }

    pub fn get(&self, kind: EventKind) -> (h: Option<u64>)
        ensures
            h == self.handler(kind),
    {
        match kind {
            EventKind::Click => self.on_click,
            EventKind::Input => self.on_input,
            EventKind::MouseEnter => self.on_mouse_enter,
            EventKind::MouseLeave => self.on_mouse_leave,
            EventKind::KeyDown => self.on_keydown,
            EventKind::DropFile => self.on_dropfile,
        }
    }

    pub fn apply(&mut self, cb: EventCallback)
        ensures
            *final(self) == old(self).with_callback(cb),
    {
        match cb {
            EventCallback::OnClick { callback } => self.on_click = callback,
            EventCallback::OnInput { callback } => self.on_input = callback,
            EventCallback::OnMouseEnter { callback } => self.on_mouse_enter = callback,
            EventCallback::OnMouseLeave { callback } => self.on_mouse_leave = callback,
            EventCallback::OnKeyDown { callback } => self.on_keydown = callback,
            EventCallback::OnDropFile { callback } => self.on_dropfile = callback,
            EventCallback::HookKeyDown { .. } => {},
        }
    }
}

/// The nodes from `id` upwards: `id`, its parent, the parent's parent, and
/// so on, following at most `fuel` parent links.
pub open spec fn ancestors(parents: Map<u64, u64>, id: u64, fuel: nat) -> Seq<u64>
    decreases fuel,
{
    if fuel == 0 || !parents.contains_key(id) {
        seq![id]
    } else {
        seq![id] + ancestors(parents, parents[id], (fuel - 1) as nat)
    }
}

/// The handler of the given kind on node `id`, if the node exists and has one.
pub open spec fn node_handler(elements: Map<u64, NodeEvents>, id: u64, kind: EventKind) -> Option<u64> {
    if elements.contains_key(id) {
        elements[id].handler(kind)
    } else {
        None
    }
}

/// The handler of the given kind of the first of `nodes` that has one.
pub open spec fn first_handler(elements: Map<u64, NodeEvents>, nodes: Seq<u64>, kind: EventKind) -> Option<u64>
    decreases nodes.len(),
{
    if nodes.len() == 0 {
        None
    } else {
        match node_handler(elements, nodes[0], kind) {
            Some(h) => Some(h),
            None => first_handler(elements, nodes.drop_first(), kind),
        }
    }
}

/// The keyboard hooks without those registered on node `id`, order kept.
pub open spec fn hooks_without(hooks: Seq<(u64, u64)>, id: u64) -> Seq<(u64, u64)>
    decreases hooks.len(),
{
    if hooks.len() == 0 {
        Seq::empty()
    } else if hooks.last().0 == id {
        hooks_without(hooks.drop_last(), id)
    } else {
        hooks_without(hooks.drop_last(), id).push(hooks.last())
    }
}

/// What the document knows of its nodes: the handlers of each element, the
/// parent of each inserted node, and the keyboard hooks as (node, handler)
/// pairs in the order they were registered.
pub struct DataView {
    pub elements: Map<u64, NodeEvents>,
    pub parents: Map<u64, u64>,
    pub hooks: Seq<(u64, u64)>,
}

impl DataView {
    /// `id` and its ancestors, innermost first.
    pub open spec fn all_nodes(self, id: u64) -> Seq<u64> {
        ancestors(self.parents, id, self.parents.dom().len())
    }

    /// The handler that an event of the given kind on `id` reaches: that of
    /// the nearest of `id` and its ancestors that has one.
    pub open spec fn find_event(self, id: u64, kind: EventKind) -> Option<u64> {
        first_handler(self.elements, self.all_nodes(id), kind)
    }

    pub open spec fn hook_handlers(self) -> Seq<u64> {
        self.hooks.map_values(|h: (u64, u64)| h.1)
    }

    pub open spec fn create_node(self, id: u64) -> DataView {
        DataView { elements: self.elements.insert(id, NodeEvents::spec_empty()), ..self }
    }

    pub open spec fn remove_text(self, id: u64) -> DataView {
        DataView { parents: self.parents.remove(id), ..self }
    }

    pub open spec fn remove_node(self, id: u64) -> DataView {
        DataView {
            elements: self.elements.remove(id),
            parents: self.parents.remove(id),
            hooks: hooks_without(self.hooks, id),
        }
    }

    pub open spec fn set_parent(self, child: u64, parent: u64) -> DataView {
        DataView { parents: self.parents.insert(child, parent), ..self }
    }

    /// Changes one handler of element `id`; nothing changes where `id` is no element.
    pub open spec fn set_event(self, id: u64, cb: EventCallback) -> DataView {
        if !self.elements.contains_key(id) {
            self
        } else {
            match cb {
                EventCallback::HookKeyDown { callback } => DataView {
                    hooks: match callback {
                        Some(h) => hooks_without(self.hooks, id).push((id, h)),
                        None => hooks_without(self.hooks, id),
                    },
                    ..self
                },
                _ => DataView {
                    elements: self.elements.insert(id, self.elements[id].with_callback(cb)),
                    ..self
                },
            }
        }
    }
}

/// The nodes of the document as the event dispatcher needs them.
pub struct DriverData {
    elements: HashMap<u64, NodeEvents>,
    child_parent: HashMap<u64, u64>,
    hooks_keydown: Vec<(u64, u64)>,
}

impl View for DriverData {
    type V = DataView;

    closed spec fn view(&self) -> DataView {
        DataView { elements: self.elements@, parents: self.child_parent@, hooks: self.hooks_keydown@ }
    }
}

impl DriverData {
    pub fn new() -> (d: DriverData)
        ensures
            d@.elements == Map::<u64, NodeEvents>::empty(),
            d@.parents == Map::<u64, u64>::empty(),
            d@.hooks == Seq::<(u64, u64)>::empty(),
    {
        DriverData { elements: HashMap::new(), child_parent: HashMap::new(), hooks_keydown: Vec::new() }
    }

    pub fn create_node(&mut self, id: u64)
        ensures
            final(self)@ == old(self)@.create_node(id),
    {
        self.elements.insert(id, NodeEvents::empty());
    }

    pub fn remove_text(&mut self, id: u64)
        ensures
            final(self)@ == old(self)@.remove_text(id),
    {
        self.child_parent.remove(&id);
    }

    pub fn remove_node(&mut self, id: u64)
        ensures
            final(self)@ == old(self)@.remove_node(id),
    {
        self.elements.remove(&id);
        self.child_parent.remove(&id);
        self.hooks_keydown = hooks_without_node(&self.hooks_keydown, id);
    }

    pub fn set_parent(&mut self, child: u64, parent: u64)
        ensures
            final(self)@ == old(self)@.set_parent(child, parent),
    {
        self.child_parent.insert(child, parent);
    }

    pub fn set_event(&mut self, id: u64, cb: EventCallback)
        ensures
            final(self)@ == old(self)@.set_event(id, cb),
    {
        let current = match self.elements.get(&id) {
            Some(e) => Some(*e),
            None => None,
        };
        match current {
            None => {},
            Some(events) => {
                match cb {
                    EventCallback::HookKeyDown { callback } => {
                        let mut hooks = hooks_without_node(&self.hooks_keydown, id);
                        match callback {
                            Some(h) => hooks.push((id, h)),
                            None => {},
                        }
                        self.hooks_keydown = hooks;
                    },
                    _ => {
                        let mut events = events;
                        events.apply(cb);
                        self.elements.insert(id, events);
                    },
                }
            },
        }
    }

    /// `id` and its ancestors, innermost first.
    pub fn find_all_nodes(&self, id: u64) -> (nodes: Vec<u64>)
        ensures
            nodes@ == self@.all_nodes(id),
    {
        let fuel = self.child_parent.len();
        let ghost p = self.child_parent@;
        let ghost total = ancestors(p, id, fuel as nat);
        let mut out: Vec<u64> = Vec::new();
        let mut cur = id;
        let mut steps: usize = 0;
        proof {
            assert(out@ + ancestors(p, cur, (fuel - steps) as nat) =~= total);
        }
        loop
            invariant_except_break
                steps <= fuel,
                p == self.child_parent@,
                out@ + ancestors(p, cur, (fuel - steps) as nat) == total,
            ensures
                out@ == total,
            decreases fuel - steps,
        {
            let ghost rest = ancestors(p, cur, (fuel - steps) as nat);
            out.push(cur);
            if steps == fuel {
                assert(out@ =~= total);
                break;
            }
            match self.child_parent.get(&cur) {
                Some(parent) => {
                    assert(rest == seq![cur] + ancestors(p, p[cur], (fuel - steps - 1) as nat));
                    cur = *parent;
                    steps = steps + 1;
                    assert(out@ + ancestors(p, cur, (fuel - steps) as nat) =~= total);
                },
                None => {
                    assert(out@ =~= total);
                    break;
                },
            }
        }
        out
    }

    /// The handler of the given kind on `id` itself.
    pub fn handler_of(&self, id: u64, kind: EventKind) -> (h: Option<u64>)
        ensures
            h == node_handler(self@.elements, id, kind),
    {
        match self.elements.get(&id) {
            Some(e) => e.get(kind),
            None => None,
        }
    }

    /// The handler of the given kind of the first of `nodes` that has one.
    pub fn first_handler_of(&self, nodes: &Vec<u64>, kind: EventKind) -> (h: Option<u64>)
        ensures
            h == first_handler(self@.elements, nodes@, kind),
    {
        let mut i: usize = 0;
        assert(nodes@.skip(0) =~= nodes@);
        while i < nodes.len()
            invariant
                i <= nodes.len(),
                first_handler(self@.elements, nodes@, kind) == first_handler(
                    self@.elements,
                    nodes@.skip(i as int),
                    kind,
                ),
            decreases nodes.len() - i,
        {
            let h = self.handler_of(nodes[i], kind);
            proof {
                assert(nodes@.skip(i as int)[0] == nodes@[i as int]);
                assert(nodes@.skip(i as int).drop_first() =~= nodes@.skip(i as int + 1));
            }
            if h.is_some() {
                return h;
            }
            i = i + 1;
        }
        proof {
            assert(nodes@.skip(i as int) =~= Seq::<u64>::empty());
        }
        None
    }

    /// The handler that an event of the given kind on `id` reaches.
    pub fn find_event(&self, id: u64, kind: EventKind) -> (h: Option<u64>)
        ensures
            h == self@.find_event(id, kind),
            self@.parents.dom().finite(),
    {
        proof {
            vstd::std_specs::hash::axiom_hashmap_view_finite_dom(self.child_parent);
        }
        let nodes = self.find_all_nodes(id);
        self.first_handler_of(&nodes, kind)
    }

    /// The keyboard hooks' handlers, in the order they were registered.
    pub fn find_hook_keydown(&self) -> (hs: Vec<u64>)
        ensures
            hs@ == self@.hook_handlers(),
    {
        let mut out: Vec<u64> = Vec::new();
        let mut i: usize = 0;
        while i < self.hooks_keydown.len()
            invariant
                i <= self.hooks_keydown@.len(),
                out@ == self.hooks_keydown@.take(i as int).map_values(|h: (u64, u64)| h.1),
            decreases self.hooks_keydown@.len() - i,
        {
            out.push(self.hooks_keydown[i].1);
            i = i + 1;
            assert(out@ =~= self.hooks_keydown@.take(i as int).map_values(|h: (u64, u64)| h.1));
        }
        assert(self.hooks_keydown@.take(i as int) =~= self.hooks_keydown@);
        out
    }
}

fn hooks_without_node(hooks: &Vec<(u64, u64)>, id: u64) -> (r: Vec<(u64, u64)>)
    ensures
        r@ == hooks_without(hooks@, id),
{
    let mut out: Vec<(u64, u64)> = Vec::new();
    let mut i: usize = 0;
    while i < hooks.len()
        invariant
            i <= hooks@.len(),
            out@ == hooks_without(hooks@.take(i as int), id),
        decreases hooks@.len() - i,
    {
        let h = hooks[i];
        proof {
            assert(hooks@.take(i as int + 1).drop_last() =~= hooks@.take(i as int));
            assert(hooks@.take(i as int + 1).last() == h);
        }
        if h.0 != id {
            out.push(h);
        }
        i = i + 1;
    }
    assert(hooks@.take(i as int) =~= hooks@);
    out
}

} // verus!
