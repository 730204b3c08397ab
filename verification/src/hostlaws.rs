//! Setting a network up and removing it again, seen from the host: the
//! steps of setup can all be carried out on a host that is as it was
//! listed, and the steps of removal then restore it.

use crate::discovery::NetworkInfoView;
use crate::endpoint::{attach_ops, endpoint_spec, needs_pair, EndpointKind, EndpointView};
use crate::host::{all_take_effect, effect, lemma_run_concat, run, HostState};
use crate::model::{
    build_endpoints, endpoint_names, generated_names, lemma_build_wf, lemma_teardown_restores_host,
    setup_ops, teardown_ops, Built,
};
use crate::pair::lemma_pair_names_fresh;
use crate::types::{ARPNeighborView, RouteView};
use vstd::prelude::*;

verus! {

/// Whether the host, after some endpoints were attached, holds nothing but
/// what it held before and what attaching them added: every interface it
/// has is among the names in use, every open queue and released driver is
/// one it had or belongs to an endpoint, and every occupied slot is one
/// that was occupied or belongs to an endpoint.
pub open spec fn accounted_for(h: HostState, before: HostState, built: Built) -> bool {
    &&& forall|name: Seq<char>|
        h.host_links.contains(name) || h.ns_links.contains(name) ==> built.taken.contains(name)
    &&& forall|name: Seq<char>|
        h.open.contains(name) ==> before.open.contains(name) || endpoint_names(
            built.endpoints,
        ).contains(name)
    &&& forall|name: Seq<char>|
        h.released.contains(name) ==> before.released.contains(name) || endpoint_names(
            built.endpoints,
        ).contains(name)
    &&& forall|slot: usize|
        h.plugged.contains(slot) ==> before.plugged.contains(slot) || slot < built.endpoints.len()
}

/// Whether the host is as the driver listed it when the interfaces
/// `infos` were discovered: it has no interface beyond the names `taken`,
/// none of the interfaces has its queues open or its driver released, and
/// the first slots of the hypervisor, one per interface, are free.
pub open spec fn as_listed(
    h: HostState,
    infos: Seq<NetworkInfoView>,
    taken: Seq<Seq<char>>,
) -> bool {
    &&& forall|name: Seq<char>|
        h.host_links.contains(name) || h.ns_links.contains(name) ==> taken.contains(name)
    &&& forall|i: int|
        0 <= i < infos.len() ==> !h.open.contains(#[trigger] infos[i].name) && !h.released.contains(
            infos[i].name,
        )
    &&& forall|slot: usize| slot < infos.len() ==> !h.plugged.contains(slot)
}

/// On a host that is as it was listed, every step of attaching the
/// endpoints, in discovery order, can be carried out; and the host then
/// holds nothing that is not accounted for.
pub proof fn lemma_setup_takes_effect(
    infos: Seq<NetworkInfoView>,
    taken: Seq<Seq<char>>,
    routes: Seq<RouteView>,
    neighs: Seq<ARPNeighborView>,
    h: HostState,
)
    requires
        infos.len() <= usize::MAX,
        as_listed(h, infos, taken),
    ensures
        all_take_effect(setup_ops(build_endpoints(infos, taken, routes, neighs).endpoints), h),
        accounted_for(
            run(setup_ops(build_endpoints(infos, taken, routes, neighs).endpoints), h),
            h,
            build_endpoints(infos, taken, routes, neighs),
        ),
    decreases infos.len(),
{
    let built = build_endpoints(infos, taken, routes, neighs);
    if infos.len() == 0 {
        assert(setup_ops(built.endpoints) =~= Seq::empty());
    } else {
        let front = infos.drop_last();
        let info = infos.last();
        assert(as_listed(h, front, taken)) by {
            assert forall|i: int| 0 <= i < front.len() implies !h.open.contains(
                #[trigger] front[i].name,
            ) && !h.released.contains(front[i].name) by {
                assert(front[i] == infos[i]);
            }
        }
        lemma_setup_takes_effect(front, taken, routes, neighs, h);
        lemma_build_wf(front, taken, routes, neighs);
        lemma_build_wf(infos, taken, routes, neighs);
        let prev = build_endpoints(front, taken, routes, neighs);
        let mid = run(setup_ops(prev.endpoints), h);
        if built.endpoints.len() == prev.endpoints.len() {
            assert(built.endpoints == prev.endpoints);
            assert(built.taken == prev.taken);
        } else {
            let slot = prev.endpoints.len() as usize;
            let e = built.endpoints.last();
            assert(built.endpoints.drop_last() =~= prev.endpoints);
            assert(endpoint_spec(info, slot, prev.taken, routes, neighs) == Ok::<
                EndpointView,
                crate::discovery::WarningKind,
            >(e));
            assert(!endpoint_names(prev.endpoints).contains(info.name));
            lemma_pair_names_fresh(info, e.kind == EndpointKind::Veth, prev.taken);
            assert(infos[infos.len() - 1].name == e.name);
            let ops = attach_ops(e);
            let plug = ops.last();
            assert(!mid.plugged.contains(slot));
            assert(!mid.open.contains(e.name));
            assert(!mid.released.contains(e.name));
            let names = generated_names(e);
            if e.kind == EndpointKind::Veth {
                let pair = e.pair->0;
                let peer = pair.peer_name->0;
                assert(names[0] == pair.host_name && names[1] == peer);
                assert(!mid.host_links.contains(pair.host_name));
                assert(!mid.host_links.contains(peer));
                assert(!mid.ns_links.contains(peer));
                let s1 = effect(ops[0], mid);
                let s2 = effect(ops[1], s1);
                let s3 = effect(ops[2], s2);
                lemma_three_steps(ops, mid);
                assert forall|name: Seq<char>|
                    s3.host_links.contains(name) || s3.ns_links.contains(name)
                        implies built.taken.contains(name) by {
                    if name == pair.host_name {
                        assert(built.taken[prev.taken.len() as int] == name);
                    } else if name == peer {
                        assert(built.taken[prev.taken.len() as int + 1] == name);
                    } else {
                        assert(prev.taken.contains(name));
                        let i = choose|i: int| 0 <= i < prev.taken.len() && prev.taken[i] == name;
                        assert(built.taken[i] == name);
                    }
                }
                lemma_new_endpoint_accounted(s3, mid, h, prev, built);
            } else {
                let s1 = effect(ops[0], mid);
                let s2 = effect(ops[1], s1);
                lemma_two_steps(ops, mid);
                if needs_pair(e.kind) {
                    let pair = e.pair->0;
                    assert(names[0] == pair.host_name);
                    assert(!mid.host_links.contains(pair.host_name));
                }
                assert forall|name: Seq<char>|
                    s2.host_links.contains(name) || s2.ns_links.contains(name)
                        implies built.taken.contains(name) by {
                    if needs_pair(e.kind) && name == e.pair->0.host_name {
                        assert(built.taken[prev.taken.len() as int] == name);
                    } else {
                        assert(prev.taken.contains(name));
                        let i = choose|i: int| 0 <= i < prev.taken.len() && prev.taken[i] == name;
                        assert(built.taken[i] == name);
                    }
                }
                lemma_new_endpoint_accounted(s2, mid, h, prev, built);
            }
            lemma_run_concat(setup_ops(prev.endpoints), ops, h);
        }
    }
}

/// Two steps in a row.
proof fn lemma_two_steps(ops: Seq<crate::hostops::HostOpView>, h: HostState)
    requires
        ops.len() == 2,
    ensures
        run(ops, h) == effect(ops[1], effect(ops[0], h)),
        all_take_effect(ops, h) == (crate::host::takes_effect(ops[0], h)
            && crate::host::takes_effect(ops[1], effect(ops[0], h))),
{
    let one = ops.drop_last();
    assert(one.drop_last() =~= Seq::empty());
    assert(run(one.drop_last(), h) == h);
    assert(run(one, h) == effect(ops[0], h));
    assert(all_take_effect(one.drop_last(), h));
    assert(all_take_effect(one, h) == crate::host::takes_effect(ops[0], h));
}

/// Three steps in a row.
proof fn lemma_three_steps(ops: Seq<crate::hostops::HostOpView>, h: HostState)
    requires
        ops.len() == 3,
    ensures
        run(ops, h) == effect(ops[2], effect(ops[1], effect(ops[0], h))),
        all_take_effect(ops, h) == (crate::host::takes_effect(ops[0], h)
            && crate::host::takes_effect(ops[1], effect(ops[0], h)) && crate::host::takes_effect(
            ops[2],
            effect(ops[1], effect(ops[0], h)),
        )),
{
    lemma_two_steps(ops.drop_last(), h);
}

/// What one more endpoint adds to the open queues, the released drivers
/// and the occupied slots is accounted for.
proof fn lemma_new_endpoint_accounted(
    after: HostState,
    mid: HostState,
    before: HostState,
    prev: Built,
    built: Built,
)
    requires
        accounted_for(mid, before, prev),
        built.endpoints.len() == prev.endpoints.len() + 1,
        built.endpoints.drop_last() == prev.endpoints,
        forall|name: Seq<char>|
            after.host_links.contains(name) || after.ns_links.contains(name)
                ==> built.taken.contains(name),
        forall|name: Seq<char>|
            after.open.contains(name) ==> mid.open.contains(name) || name
                == built.endpoints.last().name,
        forall|name: Seq<char>|
            after.released.contains(name) ==> mid.released.contains(name) || name
                == built.endpoints.last().name,
        forall|slot: usize|
            after.plugged.contains(slot) ==> mid.plugged.contains(slot) || slot
                == prev.endpoints.len(),
    ensures
        accounted_for(after, before, built),
{
    let names = endpoint_names(built.endpoints);
    let old_names = endpoint_names(prev.endpoints);
    assert forall|name: Seq<char>| old_names.contains(name) implies names.contains(name) by {
        let i = choose|i: int| 0 <= i < old_names.len() && old_names[i] == name;
        assert(built.endpoints[i] == prev.endpoints[i]);
        assert(names[i] == name);
    }
    assert(names[names.len() - 1] == built.endpoints.last().name);
}

/// Setup followed by removal leaves the host as it was. On a host that is
/// as the driver listed it at discovery, every step of attaching the
/// endpoints can be carried out, every step of detaching them afterwards
/// can be carried out, and the host is then what it was before setup: the
/// same interfaces on the host and in the namespace, the same open queues
/// and released drivers, the same occupied slots.
pub proof fn lemma_setup_then_remove_restores_host(
    infos: Seq<NetworkInfoView>,
    taken: Seq<Seq<char>>,
    routes: Seq<RouteView>,
    neighs: Seq<ARPNeighborView>,
    h: HostState,
)
    requires
        infos.len() <= usize::MAX,
        as_listed(h, infos, taken),
    ensures
        ({
            let endpoints = build_endpoints(infos, taken, routes, neighs).endpoints;
            &&& all_take_effect(setup_ops(endpoints), h)
            &&& all_take_effect(teardown_ops(endpoints), run(setup_ops(endpoints), h))
            &&& run(teardown_ops(endpoints), run(setup_ops(endpoints), h)) == h
        }),
{
    lemma_setup_takes_effect(infos, taken, routes, neighs, h);
    lemma_teardown_restores_host(build_endpoints(infos, taken, routes, neighs).endpoints, h);
}

/// The same, said of the network: when the links of the namespace have
/// arrived and the host is as the driver listed it, attaching the
/// network's endpoints and detaching them again leaves the host as it was.
pub proof fn lemma_network_restores_host(
    v: crate::model::NetworkView,
    links: Seq<crate::discovery::LinkRecordView>,
    routes: Seq<RouteView>,
    neighs: Seq<ARPNeighborView>,
    host_links: Seq<Seq<char>>,
    h: HostState,
)
    requires
        links.len() <= usize::MAX,
        as_listed(
            h,
            crate::discovery::discover_infos(links, crate::model::policy_of(v.config)),
            host_links + crate::model::link_names(links),
        ),
    ensures
        ({
            let endpoints = crate::model::discovered_step(
                v,
                links,
                routes,
                neighs,
                host_links,
            ).next.endpoints;
            &&& all_take_effect(setup_ops(endpoints), h)
            &&& all_take_effect(teardown_ops(endpoints), run(setup_ops(endpoints), h))
            &&& run(teardown_ops(endpoints), run(setup_ops(endpoints), h)) == h
        }),
{
    let policy = crate::model::policy_of(v.config);
    crate::sorting::lemma_sort_permutes(links);
    crate::discovery::lemma_infos_bounded(
        crate::sorting::sort_by_index(links),
        policy,
        u32::MAX as int,
    );
    lemma_setup_then_remove_restores_host(
        crate::discovery::discover_infos(links, policy),
        host_links + crate::model::link_names(links),
        routes,
        neighs,
        h,
    );
}

} // verus!
