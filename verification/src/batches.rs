//! How a plan is carried out: in batches. The steps on interfaces that
//! follow one another form one batch, run inside the namespace as a unit
//! that does not suspend; each step on the hypervisor is a batch of its own,
//! run outside the namespace.

use crate::endpoint::{attach_ops, detach_ops, EndpointView};
use crate::hostops::{is_hypervisor_op, HostOp, HostOpView};
use crate::types::views;
use vstd::prelude::*;

verus! {

/// A part of a plan.
#[derive(Debug, PartialEq, Eq)]
pub enum Batch {
    /// Steps to run inside the namespace, between one entry and one exit.
    Namespace { ops: Vec<HostOp> },
    /// A step on the hypervisor, to run outside the namespace.
    Hypervisor { op: HostOp },
}

pub enum BatchView {
    Namespace { ops: Seq<HostOpView> },
    Hypervisor { op: HostOpView },
}

impl View for Batch {
    type V = BatchView;

    open spec fn view(&self) -> BatchView {
        match *self {
            Batch::Namespace { ops } => BatchView::Namespace { ops: views(ops@) },
            Batch::Hypervisor { op } => BatchView::Hypervisor { op: op@ },
        }
    }
}

/// The batches of the steps `ops`. A step on the hypervisor is a batch of
/// its own; a step on interfaces joins the batch before it, if that is one
/// of steps on interfaces, and else starts a new one.
pub open spec fn batches_of(ops: Seq<HostOpView>) -> Seq<BatchView>
    decreases ops.len(),
{
    if ops.len() == 0 {
        Seq::empty()
    } else {
        let front = batches_of(ops.drop_last());
        let op = ops.last();
        if is_hypervisor_op(op) {
            front.push(BatchView::Hypervisor { op })
        } else if front.len() > 0 && front.last() is Namespace {
            front.drop_last().push(BatchView::Namespace { ops: front.last()->ops.push(op) })
        } else {
            front.push(BatchView::Namespace { ops: seq![op] })
        }
    }
}

/// The steps of the batches, in order.
pub open spec fn flatten(batches: Seq<BatchView>) -> Seq<HostOpView>
    decreases batches.len(),
{
    if batches.len() == 0 {
        Seq::empty()
    } else {
        flatten(batches.drop_last()) + match batches.last() {
            BatchView::Namespace { ops } => ops,
            BatchView::Hypervisor { op } => seq![op],
        }
    }
}

/// Whether the batches keep the discipline of the namespace: a batch for
/// the namespace holds at least one step and no step on the hypervisor,
/// and no two such batches follow one another.
pub open spec fn disciplined(batches: Seq<BatchView>) -> bool {
    &&& forall|i: int|
        0 <= i < batches.len() ==> (#[trigger] batches[i] matches BatchView::Namespace { ops }
            ==> ops.len() > 0 && forall|j: int| 0 <= j < ops.len() ==> !is_hypervisor_op(ops[j]))
    &&& forall|i: int|
        0 <= i < batches.len() - 1 ==> !(#[trigger] batches[i] is Namespace && batches[i + 1]
            is Namespace)
}

/// Splits a plan into its batches.
pub fn batches(ops: &Vec<HostOp>) -> (r: Vec<Batch>)
    ensures
        views(r@) == batches_of(views(ops@)),
{
    let ghost all = views(ops@);
    let mut done: Vec<Batch> = Vec::new();
    let mut current: Vec<HostOp> = Vec::new();
    let mut i: usize = 0;
    assert(views(done@) =~= batches_of(all.take(0)));
    while i < ops.len()
        invariant
            i <= ops.len(),
            all == views(ops@),
            done@.len() == 0 || done@.last()@ is Hypervisor,
            batches_of(all.take(i as int)) == if current@.len() > 0 {
                views(done@).push(BatchView::Namespace { ops: views(current@) })
            } else {
                views(done@)
            },
        decreases ops.len() - i,
    {
        let ghost before = batches_of(all.take(i as int));
        let ghost finished = views(done@);
        let ghost pending = views(current@);
        proof {
            assert(all.take(i + 1).drop_last() =~= all.take(i as int));
            assert(all.take(i + 1).last() == ops@[i as int]@);
            if done@.len() > 0 {
                assert(finished.last() == done@.last()@);
            }
        }
        let op = ops[i].clone();
        if op.is_hypervisor_op() {
            if current.len() > 0 {
                let mut full: Vec<HostOp> = Vec::new();
                std::mem::swap(&mut full, &mut current);
                done.push(Batch::Namespace { ops: full });
                assert(views(done@) =~= before);
                assert(views(current@) =~= Seq::<HostOpView>::empty());
            }
            let ghost flushed = views(done@);
            done.push(Batch::Hypervisor { op });
            assert(views(done@) =~= flushed.push(BatchView::Hypervisor { op: ops@[i as int]@ }));
            assert(batches_of(all.take(i + 1)) == views(done@));
        } else {
            current.push(op);
            assert(views(current@) =~= pending.push(ops@[i as int]@));
            proof {
                if pending.len() > 0 {
                    assert(before.drop_last() =~= finished);
                    assert(before.last() == (BatchView::Namespace { ops: pending }));
                } else {
                    assert(pending.push(ops@[i as int]@) =~= seq![ops@[i as int]@]);
                }
                assert(batches_of(all.take(i + 1)) == finished.push(
                    BatchView::Namespace { ops: views(current@) },
                ));
            }
        }
        i += 1;
    }
    assert(all.take(ops@.len() as int) =~= all);
    if current.len() > 0 {
        let ghost finished = views(done@);
        let ghost pending = views(current@);
        done.push(Batch::Namespace { ops: current });
        assert(views(done@) =~= finished.push(BatchView::Namespace { ops: pending }));
    }
    done
}

/// The batches of a plan hold its steps, all of them and in their order.
pub proof fn lemma_batches_flatten(ops: Seq<HostOpView>)
    ensures
        flatten(batches_of(ops)) == ops,
    decreases ops.len(),
{
    if ops.len() == 0 {
        assert(flatten(batches_of(ops)) =~= ops);
    } else {
        let front = batches_of(ops.drop_last());
        let op = ops.last();
        lemma_batches_flatten(ops.drop_last());
        let all = batches_of(ops);
        if is_hypervisor_op(op) {
            assert(all.drop_last() =~= front);
        } else if front.len() > 0 && front.last() is Namespace {
            assert(all.drop_last() =~= front.drop_last());
            assert(flatten(front) == flatten(front.drop_last()) + front.last()->ops);
        } else {
            assert(all.drop_last() =~= front);
        }
        assert(flatten(all) =~= ops.drop_last().push(op));
        assert(ops.drop_last().push(op) =~= ops);
    }
}

/// The batches of a plan keep the discipline of the namespace.
pub proof fn lemma_batches_disciplined(ops: Seq<HostOpView>)
    ensures
        disciplined(batches_of(ops)),
    decreases ops.len(),
{
    if ops.len() > 0 {
        let front = batches_of(ops.drop_last());
        let op = ops.last();
        lemma_batches_disciplined(ops.drop_last());
        let all = batches_of(ops);
        assert forall|i: int| 0 <= i < all.len() implies (
        #[trigger] all[i] matches BatchView::Namespace { ops: inner } ==> inner.len() > 0
            && forall|j: int| 0 <= j < inner.len() ==> !is_hypervisor_op(inner[j])) by {
            if i < all.len() - 1 {
                assert(all[i] == front[i]);
            } else if !is_hypervisor_op(op) && front.len() > 0 && front.last() is Namespace {
                let old_ops = front.last()->ops;
                assert(front[front.len() - 1] == front.last());
                let inner = all[i]->ops;
                assert forall|j: int| 0 <= j < inner.len() implies !is_hypervisor_op(
                    inner[j],
                ) by {
                    if j < old_ops.len() {
                        assert(inner[j] == old_ops[j]);
                    }
                }
            }
        }
        assert forall|i: int| 0 <= i < all.len() - 1 implies !(#[trigger] all[i] is Namespace
            && all[i + 1] is Namespace) by {
            if i + 1 < all.len() - 1 {
                assert(all[i] == front[i] && all[i + 1] == front[i + 1]);
            } else if !is_hypervisor_op(op) && front.len() > 0 && front.last() is Namespace {
                assert(all[i] == front[i]);
                if i + 1 < front.len() {
                    assert(front[i + 1] == front.last());
                }
            } else {
                assert(all[i] == front[i]);
                assert(front[i] == front.last());
            }
        }
    }
}

/// An endpoint is attached in two batches, the namespace first, and
/// detached in two batches, the hypervisor first: each plan enters the
/// namespace once, and not while the hypervisor is being waited for.
pub proof fn lemma_endpoint_plans_in_two_batches(e: EndpointView)
    ensures
        batches_of(attach_ops(e)).len() == 2,
        batches_of(attach_ops(e))[0] is Namespace,
        batches_of(attach_ops(e))[1] is Hypervisor,
        batches_of(detach_ops(e)).len() == 2,
        batches_of(detach_ops(e))[0] is Hypervisor,
        batches_of(detach_ops(e))[1] is Namespace,
{
    let a = attach_ops(e);
    let d = detach_ops(e);
    lemma_unfold(a);
    lemma_unfold(d);
    if a.len() == 3 {
        lemma_unfold(a.drop_last());
        lemma_unfold(a.drop_last().drop_last());
        lemma_unfold(d.drop_last());
        lemma_unfold(d.drop_last().drop_last());
        assert(a.drop_last().drop_last().drop_last() =~= Seq::<HostOpView>::empty());
        assert(d.drop_last().drop_last().drop_last() =~= Seq::<HostOpView>::empty());
    } else {
        lemma_unfold(a.drop_last());
        lemma_unfold(d.drop_last());
        assert(a.drop_last().drop_last() =~= Seq::<HostOpView>::empty());
        assert(d.drop_last().drop_last() =~= Seq::<HostOpView>::empty());
    }
}

/// One step of the definition of `batches_of`.
proof fn lemma_unfold(ops: Seq<HostOpView>)
    ensures
        ops.len() == 0 ==> batches_of(ops) == Seq::<BatchView>::empty(),
        ops.len() > 0 ==> batches_of(ops) == ({
            let front = batches_of(ops.drop_last());
            let op = ops.last();
            if is_hypervisor_op(op) {
                front.push(BatchView::Hypervisor { op })
            } else if front.len() > 0 && front.last() is Namespace {
                front.drop_last().push(BatchView::Namespace { ops: front.last()->ops.push(op) })
            } else {
                front.push(BatchView::Namespace { ops: seq![op] })
            }
        }),
{
}

} // verus!
