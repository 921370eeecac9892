use vstd::prelude::*;
use crate::driver_data::{DriverData, EventKind, NodeEvents, node_handler};

verus! {

/// The handlers of the given kind of those of `from` that are not among
/// `exclude`, in the order of `from`.
pub open spec fn transition_handlers(
    elements: Map<u64, NodeEvents>,
    from: Seq<u64>,
    exclude: Seq<u64>,
    kind: EventKind,
) -> Seq<u64>
    decreases from.len(),
{
    if from.len() == 0 {
        Seq::empty()
    } else {
        let rest = transition_handlers(elements, from.drop_last(), exclude, kind);
        let n = from.last();
        if !exclude.contains(n) && node_handler(elements, n, kind) is Some {
            rest.push(node_handler(elements, n, kind)->0)
        } else {
            rest
        }
    }
}

/// The handlers that moving the pointer from the nodes `old_nodes` to the
/// nodes `new_nodes` runs: the leave handlers of the nodes it left, then the
/// enter handlers of the nodes it entered.
pub open spec fn hover_handlers(
    elements: Map<u64, NodeEvents>,
    old_nodes: Seq<u64>,
    new_nodes: Seq<u64>,
) -> Seq<u64> {
    transition_handlers(elements, old_nodes, new_nodes, EventKind::MouseLeave)
        + transition_handlers(elements, new_nodes, old_nodes, EventKind::MouseEnter)
}

/// The nodes under the mouse pointer: the one it points at and its ancestors.
pub struct VisitedNodeManager {
    nodes: Vec<u64>,
}

impl View for VisitedNodeManager {
    type V = Seq<u64>;

    closed spec fn view(&self) -> Seq<u64> {
        self.nodes@
    }
}

pub fn contains_id(v: &Vec<u64>, x: u64) -> (b: bool)
    ensures
        b == v@.contains(x),
{
    let mut i: usize = 0;
    while i < v.len()
        invariant
            i <= v@.len(),
            forall|j: int| 0 <= j < i ==> v@[j] != x,
        decreases v@.len() - i,
    {
        if v[i] == x {
            assert(v@[i as int] == x);
            return true;
        }
        i = i + 1;
    }
    false
}

fn transition(data: &DriverData, from: &Vec<u64>, exclude: &Vec<u64>, kind: EventKind, out: &mut Vec<u64>)
    ensures
        final(out)@ == old(out)@ + transition_handlers(data@.elements, from@, exclude@, kind),
{
    let ghost start = out@;
    let mut i: usize = 0;
    while i < from.len()
        invariant
            i <= from@.len(),
            out@ == start + transition_handlers(data@.elements, from@.take(i as int), exclude@, kind),
        decreases from@.len() - i,
    {
        let n = from[i];
        proof {
            assert(from@.take(i as int + 1).drop_last() =~= from@.take(i as int));
            assert(from@.take(i as int + 1).last() == n);
        }
        if !contains_id(exclude, n) {
            match data.handler_of(n, kind) {
                Some(h) => out.push(h),
                None => {},
            }
        }
        i = i + 1;
        assert(out@ =~= start + transition_handlers(data@.elements, from@.take(i as int), exclude@, kind));
    }
    assert(from@.take(i as int) =~= from@);
}

impl VisitedNodeManager {
    pub fn new() -> (m: VisitedNodeManager)
        ensures
            m@ == Seq::<u64>::empty(),
    {
        VisitedNodeManager { nodes: Vec::new() }
    }

    /// Moves the pointer onto `nodes`; returns the handlers to run, in order.
    pub fn push_new_nodes(&mut self, data: &DriverData, nodes: Vec<u64>) -> (hs: Vec<u64>)
        ensures
            final(self)@ == nodes@,
            hs@ == hover_handlers(data@.elements, old(self)@, nodes@),
    {
        let mut out: Vec<u64> = Vec::new();
        transition(data, &self.nodes, &nodes, EventKind::MouseLeave, &mut out);
        transition(data, &nodes, &self.nodes, EventKind::MouseEnter, &mut out);
        assert(out@ =~= hover_handlers(data@.elements, old(self)@, nodes@));
        self.nodes = nodes;
        out
    }

    /// Moves the pointer off the document; returns the handlers to run.
    pub fn clear(&mut self, data: &DriverData) -> (hs: Vec<u64>)
        ensures
            final(self)@ == Seq::<u64>::empty(),
            hs@ == hover_handlers(data@.elements, old(self)@, Seq::empty()),
    {
        self.push_new_nodes(data, Vec::new())
    }
}

} // verus!
