use vstd::prelude::*;

verus! {

/// What a hook does when it fires: flush the document driver and send the
/// batch, or run a callback of the caller, named by the number the caller
/// gave it.
#[derive(Clone, Copy, PartialEq, Eq, Structural, Debug)]
pub enum HookAction {
    FlushDriver,
    Callback { id: u64 },
}

/// Hooks that fire around every transaction of the reactive graph: those
/// registered "before" when a transaction starts, those registered "after"
/// when it ends, each list in the order of registration.
pub struct Hooks {
    callback_before_transaction: Vec<HookAction>,
    callback_after_transaction: Vec<HookAction>,
}

/// The registered hooks: (before, after).
pub struct HooksView {
    pub before: Seq<HookAction>,
    pub after: Seq<HookAction>,
}

impl View for Hooks {
    type V = HooksView;

    closed spec fn view(&self) -> HooksView {
        HooksView { before: self.callback_before_transaction@, after: self.callback_after_transaction@ }
    }
}

fn copy_actions(v: &Vec<HookAction>) -> (r: Vec<HookAction>)
    ensures
        r@ == v@,
{
    let mut out: Vec<HookAction> = Vec::new();
    let mut i: usize = 0;
    while i < v.len()
        invariant
            i <= v@.len(),
            out@ == v@.take(i as int),
        decreases v@.len() - i,
    {
        out.push(v[i]);
        i = i + 1;
        assert(out@ =~= v@.take(i as int));
    }
    assert(v@.take(i as int) =~= v@);
    out
}

impl Hooks {
    pub fn new() -> (h: Hooks)
        ensures
            h@.before == Seq::<HookAction>::empty(),
            h@.after == Seq::<HookAction>::empty(),
    {
        Hooks { callback_before_transaction: Vec::new(), callback_after_transaction: Vec::new() }
    }

    pub fn on_before_transaction(&mut self, callback: HookAction)
        ensures
            final(self)@.before == old(self)@.before.push(callback),
            final(self)@.after == old(self)@.after,
    {
        self.callback_before_transaction.push(callback);
    }

    pub fn on_after_transaction(&mut self, callback: HookAction)
        ensures
            final(self)@.after == old(self)@.after.push(callback),
            final(self)@.before == old(self)@.before,
    {
        self.callback_after_transaction.push(callback);
    }

    /// The hooks that fire as a transaction starts, in registration order.
    pub fn fire_start(&self) -> (calls: Vec<HookAction>)
        ensures
            calls@ == self@.before,
    {
        copy_actions(&self.callback_before_transaction)
    }

    /// The hooks that fire as a transaction ends, in registration order.
    pub fn fire_end(&self) -> (calls: Vec<HookAction>)
        ensures
            calls@ == self@.after,
    {
        copy_actions(&self.callback_after_transaction)
    }
}

} // verus!
