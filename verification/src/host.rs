//! A model of what the host steps act on, and the proof that taking an
//! endpoint down reverts what setting it up did. The model knows which
//! interfaces exist on the host and in the namespace, which macvtap queues
//! are open, which physical interfaces are released from their driver,
//! which hypervisor slots hold a device, and the routes and neighbours of
//! the namespace; it knows nothing else about a host.

use crate::hostops::{inverse, undo, HostOpView};
use crate::types::{ARPNeighborView, RouteView};
use vstd::prelude::*;

verus! {

/// The modelled state of a host.
pub struct HostState {
    /// Names of the interfaces outside the sandbox's namespace.
    pub host_links: Set<Seq<char>>,
    /// Names of the interfaces inside the sandbox's namespace.
    pub ns_links: Set<Seq<char>>,
    /// Names of the macvtap interfaces whose queues are open.
    pub open: Set<Seq<char>>,
    /// Names of the physical interfaces taken from their host driver.
    pub released: Set<Seq<char>>,
    /// Hypervisor slots that hold a device.
    pub plugged: Set<usize>,
    /// The routing table of the namespace. No step touches it.
    pub routes: Seq<RouteView>,
    /// The neighbour table of the namespace. No step touches it.
    pub neighs: Seq<ARPNeighborView>,
}

/// Whether `op` can be carried out on `h`: what it creates is not there
/// yet, what it removes or moves is there.
pub open spec fn takes_effect(op: HostOpView, h: HostState) -> bool {
    match op {
        HostOpView::CreateTap { name, .. } => !h.host_links.contains(name),
        HostOpView::CreateVeth { name, peer, .. } => name != peer && !h.host_links.contains(name)
            && !h.host_links.contains(peer),
        HostOpView::MoveIntoNamespace { name } => h.host_links.contains(name)
            && !h.ns_links.contains(name),
        HostOpView::OpenMacvtap { name, .. } => !h.open.contains(name),
        HostOpView::ReleaseDriver { name } => !h.released.contains(name),
        HostOpView::Plug { slot, .. } => !h.plugged.contains(slot),
        HostOpView::Unplug { slot, .. } => h.plugged.contains(slot),
        HostOpView::RestoreDriver { name } => h.released.contains(name),
        HostOpView::CloseMacvtap { name, .. } => h.open.contains(name),
        HostOpView::MoveOutOfNamespace { name } => h.ns_links.contains(name)
            && !h.host_links.contains(name),
        HostOpView::DeleteVeth { name, peer, .. } => name != peer && h.host_links.contains(name)
            && h.host_links.contains(peer),
        HostOpView::DeleteTap { name, .. } => h.host_links.contains(name),
    }
}

/// The state of the host after `op`.
pub open spec fn effect(op: HostOpView, h: HostState) -> HostState {
    match op {
        HostOpView::CreateTap { name, .. } => HostState {
            host_links: h.host_links.insert(name),
            ..h
        },
        HostOpView::CreateVeth { name, peer, .. } => HostState {
            host_links: h.host_links.insert(name).insert(peer),
            ..h
        },
        HostOpView::MoveIntoNamespace { name } => HostState {
            host_links: h.host_links.remove(name),
            ns_links: h.ns_links.insert(name),
            ..h
        },
        HostOpView::OpenMacvtap { name, .. } => HostState { open: h.open.insert(name), ..h },
        HostOpView::ReleaseDriver { name } => HostState {
            released: h.released.insert(name),
            ..h
        },
        HostOpView::Plug { slot, .. } => HostState { plugged: h.plugged.insert(slot), ..h },
        HostOpView::Unplug { slot, .. } => HostState { plugged: h.plugged.remove(slot), ..h },
        HostOpView::RestoreDriver { name } => HostState {
            released: h.released.remove(name),
            ..h
        },
        HostOpView::CloseMacvtap { name, .. } => HostState { open: h.open.remove(name), ..h },
        HostOpView::MoveOutOfNamespace { name } => HostState {
            host_links: h.host_links.insert(name),
            ns_links: h.ns_links.remove(name),
            ..h
        },
        HostOpView::DeleteVeth { name, peer, .. } => HostState {
            host_links: h.host_links.remove(name).remove(peer),
            ..h
        },
        HostOpView::DeleteTap { name, .. } => HostState {
            host_links: h.host_links.remove(name),
            ..h
        },
    }
}

/// The state of the host after the steps `ops`, run in order.
pub open spec fn run(ops: Seq<HostOpView>, h: HostState) -> HostState
    decreases ops.len(),
{
    if ops.len() == 0 {
        h
    } else {
        effect(ops.last(), run(ops.drop_last(), h))
    }
}

/// Whether each of the steps `ops`, run in order from `h`, can be carried
/// out on the state it meets.
pub open spec fn all_take_effect(ops: Seq<HostOpView>, h: HostState) -> bool
    decreases ops.len(),
{
    ops.len() == 0 || (all_take_effect(ops.drop_last(), h) && takes_effect(
        ops.last(),
        run(ops.drop_last(), h),
    ))
}

/// A step that was carried out can be reverted, and reverting it restores
/// the state it was carried out on.
pub proof fn lemma_inverse_restores(op: HostOpView, h: HostState)
    requires
        takes_effect(op, h),
    ensures
        takes_effect(inverse(op), effect(op, h)),
        effect(inverse(op), effect(op, h)) == h,
{
    let back = effect(inverse(op), effect(op, h));
    assert(back.host_links =~= h.host_links);
    assert(back.ns_links =~= h.ns_links);
    assert(back.open =~= h.open);
    assert(back.released =~= h.released);
    assert(back.plugged =~= h.plugged);
}

/// Running a step and then further steps is running them all.
pub proof fn lemma_run_first(op: HostOpView, rest: Seq<HostOpView>, h: HostState)
    ensures
        run(seq![op] + rest, h) == run(rest, effect(op, h)),
        all_take_effect(seq![op] + rest, h) == (takes_effect(op, h) && all_take_effect(
            rest,
            effect(op, h),
        )),
    decreases rest.len(),
{
    let all = seq![op] + rest;
    if rest.len() == 0 {
        assert(all.drop_last() =~= Seq::<HostOpView>::empty());
        assert(all.last() == op);
        assert(run(all.drop_last(), h) == h);
        assert(all_take_effect(all.drop_last(), h));
        assert(all_take_effect(rest, effect(op, h)));
    } else {
        let front = seq![op] + rest.drop_last();
        assert(all.drop_last() =~= front);
        assert(all.last() == rest.last());
        lemma_run_first(op, rest.drop_last(), h);
        assert(all_take_effect(all, h) == (all_take_effect(front, h) && takes_effect(
            rest.last(),
            run(front, h),
        )));
        assert(all_take_effect(rest, effect(op, h)) == (all_take_effect(
            rest.drop_last(),
            effect(op, h),
        ) && takes_effect(rest.last(), run(rest.drop_last(), effect(op, h)))));
    }
}

/// Steps that were all carried out can all be reverted, last step first,
/// and that restores the state from which they started.
pub proof fn lemma_undo_restores(ops: Seq<HostOpView>, h: HostState)
    requires
        all_take_effect(ops, h),
    ensures
        all_take_effect(undo(ops), run(ops, h)),
        run(undo(ops), run(ops, h)) == h,
    decreases ops.len(),
{
    if ops.len() > 0 {
        let front = ops.drop_last();
        let mid = run(front, h);
        lemma_undo_restores(front, h);
        lemma_inverse_restores(ops.last(), mid);
        assert(undo(ops) =~= seq![inverse(ops.last())] + undo(front));
        lemma_run_first(inverse(ops.last()), undo(front), run(ops, h));
    } else {
        assert(undo(ops) =~= Seq::<HostOpView>::empty());
    }
}

/// Running one batch of steps after another is running them all.
pub proof fn lemma_run_concat(a: Seq<HostOpView>, b: Seq<HostOpView>, h: HostState)
    ensures
        run(a + b, h) == run(b, run(a, h)),
        all_take_effect(a + b, h) == (all_take_effect(a, h) && all_take_effect(b, run(a, h))),
    decreases b.len(),
{
    if b.len() == 0 {
        assert(a + b =~= a);
    } else {
        assert((a + b).drop_last() =~= a + b.drop_last());
        assert((a + b).last() == b.last());
        lemma_run_concat(a, b.drop_last(), h);
    }
}

} // verus!
