//! The primitive steps that attaching and detaching an endpoint consist of,
//! and how a sequence of them is reverted.

use crate::types::views;
use vstd::prelude::*;

verus! {

/// One step on the host or on the hypervisor. The first six set an endpoint
/// up, the last six take it down again.
#[derive(Debug, PartialEq, Eq)]
pub enum HostOp {
    /// Create a tap device on the host.
    CreateTap { name: String, queues: u32, mtu: u32 },
    /// Create a veth pair on the host, both ends at once.
    CreateVeth { name: String, peer: String, mtu: u32 },
    /// Move a host interface into the sandbox's namespace.
    MoveIntoNamespace { name: String },
    /// Open the queues of a macvtap interface.
    OpenMacvtap { name: String, queues: u32 },
    /// Take a physical interface away from its host driver.
    ReleaseDriver { name: String },
    /// Register a device with the hypervisor, hot-plugging it if the guest
    /// is running.
    Plug { slot: usize, queues: u32 },
    /// Remove a device from the hypervisor.
    Unplug { slot: usize, queues: u32 },
    /// Give a physical interface back to its host driver.
    RestoreDriver { name: String },
    /// Close the queues of a macvtap interface.
    CloseMacvtap { name: String, queues: u32 },
    /// Move an interface from the sandbox's namespace back to the host.
    MoveOutOfNamespace { name: String },
    /// Delete a veth pair, both ends at once.
    DeleteVeth { name: String, peer: String, mtu: u32 },
    /// Delete a tap device.
    DeleteTap { name: String, queues: u32, mtu: u32 },
}

pub enum HostOpView {
    CreateTap { name: Seq<char>, queues: u32, mtu: u32 },
    CreateVeth { name: Seq<char>, peer: Seq<char>, mtu: u32 },
    MoveIntoNamespace { name: Seq<char> },
    OpenMacvtap { name: Seq<char>, queues: u32 },
    ReleaseDriver { name: Seq<char> },
    Plug { slot: usize, queues: u32 },
    Unplug { slot: usize, queues: u32 },
    RestoreDriver { name: Seq<char> },
    CloseMacvtap { name: Seq<char>, queues: u32 },
    MoveOutOfNamespace { name: Seq<char> },
    DeleteVeth { name: Seq<char>, peer: Seq<char>, mtu: u32 },
    DeleteTap { name: Seq<char>, queues: u32, mtu: u32 },
}

impl View for HostOp {
    type V = HostOpView;

    open spec fn view(&self) -> HostOpView {
        match *self {
            HostOp::CreateTap { name, queues, mtu } => HostOpView::CreateTap {
                name: name@,
                queues,
                mtu,
            },
            HostOp::CreateVeth { name, peer, mtu } => HostOpView::CreateVeth {
                name: name@,
                peer: peer@,
                mtu,
            },
            HostOp::MoveIntoNamespace { name } => HostOpView::MoveIntoNamespace { name: name@ },
            HostOp::OpenMacvtap { name, queues } => HostOpView::OpenMacvtap { name: name@, queues },
            HostOp::ReleaseDriver { name } => HostOpView::ReleaseDriver { name: name@ },
            HostOp::Plug { slot, queues } => HostOpView::Plug { slot, queues },
            HostOp::Unplug { slot, queues } => HostOpView::Unplug { slot, queues },
            HostOp::RestoreDriver { name } => HostOpView::RestoreDriver { name: name@ },
            HostOp::CloseMacvtap { name, queues } => HostOpView::CloseMacvtap {
                name: name@,
                queues,
            },
            HostOp::MoveOutOfNamespace { name } => HostOpView::MoveOutOfNamespace { name: name@ },
            HostOp::DeleteVeth { name, peer, mtu } => HostOpView::DeleteVeth {
                name: name@,
                peer: peer@,
                mtu,
            },
            HostOp::DeleteTap { name, queues, mtu } => HostOpView::DeleteTap {
                name: name@,
                queues,
                mtu,
            },
        }
    }
}

/// The step that reverts `op`. Every step has one, and reverting twice
/// gives the step back.
pub open spec fn inverse(op: HostOpView) -> HostOpView {
    match op {
        HostOpView::CreateTap { name, queues, mtu } => HostOpView::DeleteTap { name, queues, mtu },
        HostOpView::CreateVeth { name, peer, mtu } => HostOpView::DeleteVeth { name, peer, mtu },
        HostOpView::MoveIntoNamespace { name } => HostOpView::MoveOutOfNamespace { name },
        HostOpView::OpenMacvtap { name, queues } => HostOpView::CloseMacvtap { name, queues },
        HostOpView::ReleaseDriver { name } => HostOpView::RestoreDriver { name },
        HostOpView::Plug { slot, queues } => HostOpView::Unplug { slot, queues },
        HostOpView::Unplug { slot, queues } => HostOpView::Plug { slot, queues },
        HostOpView::RestoreDriver { name } => HostOpView::ReleaseDriver { name },
        HostOpView::CloseMacvtap { name, queues } => HostOpView::OpenMacvtap { name, queues },
        HostOpView::MoveOutOfNamespace { name } => HostOpView::MoveIntoNamespace { name },
        HostOpView::DeleteVeth { name, peer, mtu } => HostOpView::CreateVeth { name, peer, mtu },
        HostOpView::DeleteTap { name, queues, mtu } => HostOpView::CreateTap { name, queues, mtu },
    }
}

/// Whether `op` sets something up (as opposed to taking it down).
pub open spec fn is_setup(op: HostOpView) -> bool {
    op is CreateTap || op is CreateVeth || op is MoveIntoNamespace || op is OpenMacvtap
        || op is ReleaseDriver || op is Plug
}

/// Whether `op` addresses the hypervisor. Such a step may suspend the
/// caller, so it is never run while the namespace is entered; every other
/// step touches interfaces and is run inside it.
pub open spec fn is_hypervisor_op(op: HostOpView) -> bool {
    op is Plug || op is Unplug
}

/// The steps that revert `ops`: the inverse of each, last step first.
pub open spec fn undo(ops: Seq<HostOpView>) -> Seq<HostOpView> {
    Seq::new(ops.len(), |i: int| inverse(ops[ops.len() - 1 - i]))
}

impl Clone for HostOp {
    fn clone(&self) -> (r: Self)
        ensures
            r@ == self@,
    {
        match self {
            HostOp::CreateTap { name, queues, mtu } => HostOp::CreateTap {
                name: name.clone(),
                queues: *queues,
                mtu: *mtu,
            },
            HostOp::CreateVeth { name, peer, mtu } => HostOp::CreateVeth {
                name: name.clone(),
                peer: peer.clone(),
                mtu: *mtu,
            },
            HostOp::MoveIntoNamespace { name } => HostOp::MoveIntoNamespace { name: name.clone() },
            HostOp::OpenMacvtap { name, queues } => HostOp::OpenMacvtap {
                name: name.clone(),
                queues: *queues,
            },
            HostOp::ReleaseDriver { name } => HostOp::ReleaseDriver { name: name.clone() },
            HostOp::Plug { slot, queues } => HostOp::Plug { slot: *slot, queues: *queues },
            HostOp::Unplug { slot, queues } => HostOp::Unplug { slot: *slot, queues: *queues },
            HostOp::RestoreDriver { name } => HostOp::RestoreDriver { name: name.clone() },
            HostOp::CloseMacvtap { name, queues } => HostOp::CloseMacvtap {
                name: name.clone(),
                queues: *queues,
            },
            HostOp::MoveOutOfNamespace { name } => HostOp::MoveOutOfNamespace {
                name: name.clone(),
            },
            HostOp::DeleteVeth { name, peer, mtu } => HostOp::DeleteVeth {
                name: name.clone(),
                peer: peer.clone(),
                mtu: *mtu,
            },
            HostOp::DeleteTap { name, queues, mtu } => HostOp::DeleteTap {
                name: name.clone(),
                queues: *queues,
                mtu: *mtu,
            },
        }
    }
}

impl HostOp {
    /// The step that reverts this one.
    pub fn inverse(&self) -> (r: HostOp)
        ensures
            r@ == inverse(self@),
    {
        match self {
            HostOp::CreateTap { name, queues, mtu } => HostOp::DeleteTap {
                name: name.clone(),
                queues: *queues,
                mtu: *mtu,
            },
            HostOp::CreateVeth { name, peer, mtu } => HostOp::DeleteVeth {
                name: name.clone(),
                peer: peer.clone(),
                mtu: *mtu,
            },
            HostOp::MoveIntoNamespace { name } => HostOp::MoveOutOfNamespace {
                name: name.clone(),
            },
            HostOp::OpenMacvtap { name, queues } => HostOp::CloseMacvtap {
                name: name.clone(),
                queues: *queues,
            },
            HostOp::ReleaseDriver { name } => HostOp::RestoreDriver { name: name.clone() },
            HostOp::Plug { slot, queues } => HostOp::Unplug { slot: *slot, queues: *queues },
            HostOp::Unplug { slot, queues } => HostOp::Plug { slot: *slot, queues: *queues },
            HostOp::RestoreDriver { name } => HostOp::ReleaseDriver { name: name.clone() },
            HostOp::CloseMacvtap { name, queues } => HostOp::OpenMacvtap {
                name: name.clone(),
                queues: *queues,
            },
            HostOp::MoveOutOfNamespace { name } => HostOp::MoveIntoNamespace {
                name: name.clone(),
            },
            HostOp::DeleteVeth { name, peer, mtu } => HostOp::CreateVeth {
                name: name.clone(),
                peer: peer.clone(),
                mtu: *mtu,
            },
            HostOp::DeleteTap { name, queues, mtu } => HostOp::CreateTap {
                name: name.clone(),
                queues: *queues,
                mtu: *mtu,
            },
        }
    }

    /// Whether this step addresses the hypervisor rather than the host's
    /// interfaces.
    pub fn is_hypervisor_op(&self) -> (r: bool)
        ensures
            r == is_hypervisor_op(self@),
    {
        match self {
            HostOp::Plug { .. } => true,
            HostOp::Unplug { .. } => true,
            _ => false,
        }
    }
}

/// The steps that revert the first `completed` steps of `ops`, in the order
/// in which to run them. This is what is left to do when step number
/// `completed` of `ops` has failed. A `completed` beyond the end of `ops`
/// counts as all of them.
pub fn undo_ops(ops: &Vec<HostOp>, completed: usize) -> (r: Vec<HostOp>)
    ensures
        views(r@) == undo(
            views(ops@).take(
                if completed <= ops@.len() {
                    completed as int
                } else {
                    ops@.len() as int
                },
            ),
        ),
{
    let n: usize = if completed <= ops.len() {
        completed
    } else {
        ops.len()
    };
    let ghost done = views(ops@).take(n as int);
    let mut r: Vec<HostOp> = Vec::new();
    let mut i: usize = 0;
    while i < n
        invariant
            i <= n <= ops@.len(),
            done == views(ops@).take(n as int),
            r@.len() == i,
            forall|j: int| 0 <= j < i ==> r@[j]@ == inverse(done[n - 1 - j]),
        decreases n - i,
    {
        let op = ops[n - 1 - i].inverse();
        r.push(op);
        i += 1;
    }
    assert(views(r@) =~= undo(done));
    r
}

/// Reverting a step twice is the step itself.
pub proof fn lemma_inverse_involution(op: HostOpView)
    ensures
        inverse(inverse(op)) == op,
{
}

/// Reverting the reverting steps gives the steps themselves back.
pub proof fn lemma_undo_involution(ops: Seq<HostOpView>)
    ensures
        undo(undo(ops)) == ops,
{
    assert(undo(undo(ops)) =~= ops);
}

/// Steps that were run one batch after the other are reverted batch by
/// batch, the later batch first.
pub proof fn lemma_undo_concat(a: Seq<HostOpView>, b: Seq<HostOpView>)
    ensures
        undo(a + b) == undo(b) + undo(a),
{
    assert(undo(a + b) =~= undo(b) + undo(a));
}

} // verus!
