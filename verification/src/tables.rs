//! The routes and neighbours handed to the guest are those of the
//! namespace: each entry once for every time the namespace has it, with an
//! endpoint if it names the endpoint's device, and after the endpoints'
//! entries if it does not.

use crate::discovery::{LinkRecordView, NetworkInfoView};
use crate::endpoint::{neighs_of, routes_of, EndpointView};
use crate::model::{
    build_endpoints, discovered_step, endpoint_names, endpoint_neighs, endpoint_routes,
    lemma_build_wf, link_names, policy_of, unclaimed_neighs, unclaimed_routes, NetworkView,
};
use crate::types::{ARPNeighborView, RouteView};
use vstd::prelude::*;
use vstd::seq_lib::{lemma_multiset_commutative, to_multiset_build, to_multiset_contains};

verus! {

/// Whether each endpoint holds the routes and neighbours that the tables
/// `routes` and `neighs` have for its device.
pub open spec fn tables_assigned(
    endpoints: Seq<EndpointView>,
    routes: Seq<RouteView>,
    neighs: Seq<ARPNeighborView>,
) -> bool {
    forall|k: int|
        0 <= k < endpoints.len() ==> (#[trigger] endpoints[k]).routes == routes_of(
            routes,
            endpoints[k].name,
        ) && endpoints[k].neighs == neighs_of(neighs, endpoints[k].name)
}

/// How often the routes through `device` hold `x`: as often as the table,
/// if `x` goes through that device, and else not at all.
proof fn lemma_routes_of_count(all: Seq<RouteView>, device: Seq<char>, x: RouteView)
    ensures
        routes_of(all, device).to_multiset().count(x) == if x.device == device {
            all.to_multiset().count(x)
        } else {
            0
        },
    decreases all.len(),
{
    broadcast use vstd::multiset::group_multiset_axioms;

    if all.len() == 0 {
        to_multiset_contains(all, x);
        to_multiset_contains(routes_of(all, device), x);
    } else {
        let front = all.drop_last();
        lemma_routes_of_count(front, device, x);
        to_multiset_build(front, all.last());
        assert(front.push(all.last()) =~= all);
        if all.last().device == device {
            to_multiset_build(routes_of(front, device), all.last());
        }
    }
}

/// How often the routes through none of the devices `names` hold `x`: as
/// often as the table, if `x` goes through none of them, and else not at
/// all.
proof fn lemma_unclaimed_routes_count(all: Seq<RouteView>, names: Seq<Seq<char>>, x: RouteView)
    ensures
        unclaimed_routes(all, names).to_multiset().count(x) == if names.contains(x.device) {
            0
        } else {
            all.to_multiset().count(x)
        },
    decreases all.len(),
{
    broadcast use vstd::multiset::group_multiset_axioms;

    if all.len() == 0 {
        to_multiset_contains(all, x);
        to_multiset_contains(unclaimed_routes(all, names), x);
    } else {
        let front = all.drop_last();
        lemma_unclaimed_routes_count(front, names, x);
        to_multiset_build(front, all.last());
        assert(front.push(all.last()) =~= all);
        if !names.contains(all.last().device) {
            to_multiset_build(unclaimed_routes(front, names), all.last());
        }
    }
}

/// How often the routes of the endpoints hold `x`: as often as the table,
/// if `x` goes through the device of one of them, and else not at all.
proof fn lemma_endpoint_routes_count(
    endpoints: Seq<EndpointView>,
    routes: Seq<RouteView>,
    neighs: Seq<ARPNeighborView>,
    x: RouteView,
)
    requires
        endpoint_names(endpoints).no_duplicates(),
        tables_assigned(endpoints, routes, neighs),
    ensures
        endpoint_routes(endpoints).to_multiset().count(x) == if endpoint_names(
            endpoints,
        ).contains(x.device) {
            routes.to_multiset().count(x)
        } else {
            0
        },
    decreases endpoints.len(),
{
    broadcast use vstd::multiset::group_multiset_axioms;

    let names = endpoint_names(endpoints);
    if endpoints.len() == 0 {
        to_multiset_contains(endpoint_routes(endpoints), x);
    } else {
        let front = endpoints.drop_last();
        let last = endpoints.last();
        let front_names = endpoint_names(front);
        assert(front_names =~= names.drop_last());
        assert(front_names.no_duplicates());
        assert(tables_assigned(front, routes, neighs)) by {
            assert forall|k: int| 0 <= k < front.len() implies (#[trigger] front[k]).routes
                == routes_of(routes, front[k].name) && front[k].neighs == neighs_of(
                neighs,
                front[k].name,
            ) by {
                assert(front[k] == endpoints[k]);
            }
        }
        lemma_endpoint_routes_count(front, routes, neighs, x);
        assert(last == endpoints[endpoints.len() - 1]);
        lemma_routes_of_count(routes, last.name, x);
        lemma_multiset_commutative(endpoint_routes(front), last.routes);
        assert(names[names.len() - 1] == last.name);
        if front_names.contains(x.device) {
            let k = choose|k: int| 0 <= k < front_names.len() && front_names[k] == x.device;
            assert(names[k] == x.device);
            assert(last.name != x.device);
        } else if names.contains(x.device) {
            let k = choose|k: int| 0 <= k < names.len() && names[k] == x.device;
            if k < front_names.len() {
                assert(front_names[k] == x.device);
            }
        }
    }
}

/// The same three counts, for neighbours.
proof fn lemma_neighs_of_count(all: Seq<ARPNeighborView>, device: Seq<char>, x: ARPNeighborView)
    ensures
        neighs_of(all, device).to_multiset().count(x) == if x.device == device {
            all.to_multiset().count(x)
        } else {
            0
        },
    decreases all.len(),
{
    broadcast use vstd::multiset::group_multiset_axioms;

    if all.len() == 0 {
        to_multiset_contains(all, x);
        to_multiset_contains(neighs_of(all, device), x);
    } else {
        let front = all.drop_last();
        lemma_neighs_of_count(front, device, x);
        to_multiset_build(front, all.last());
        assert(front.push(all.last()) =~= all);
        if all.last().device == device {
            to_multiset_build(neighs_of(front, device), all.last());
        }
    }
}

proof fn lemma_unclaimed_neighs_count(
    all: Seq<ARPNeighborView>,
    names: Seq<Seq<char>>,
    x: ARPNeighborView,
)
    ensures
        unclaimed_neighs(all, names).to_multiset().count(x) == if names.contains(x.device) {
            0
        } else {
            all.to_multiset().count(x)
        },
    decreases all.len(),
{
    broadcast use vstd::multiset::group_multiset_axioms;

    if all.len() == 0 {
        to_multiset_contains(all, x);
        to_multiset_contains(unclaimed_neighs(all, names), x);
    } else {
        let front = all.drop_last();
        lemma_unclaimed_neighs_count(front, names, x);
        to_multiset_build(front, all.last());
        assert(front.push(all.last()) =~= all);
        if !names.contains(all.last().device) {
            to_multiset_build(unclaimed_neighs(front, names), all.last());
        }
    }
}

proof fn lemma_endpoint_neighs_count(
    endpoints: Seq<EndpointView>,
    routes: Seq<RouteView>,
    neighs: Seq<ARPNeighborView>,
    x: ARPNeighborView,
)
    requires
        endpoint_names(endpoints).no_duplicates(),
        tables_assigned(endpoints, routes, neighs),
    ensures
        endpoint_neighs(endpoints).to_multiset().count(x) == if endpoint_names(
            endpoints,
        ).contains(x.device) {
            neighs.to_multiset().count(x)
        } else {
            0
        },
    decreases endpoints.len(),
{
    broadcast use vstd::multiset::group_multiset_axioms;

    let names = endpoint_names(endpoints);
    if endpoints.len() == 0 {
        to_multiset_contains(endpoint_neighs(endpoints), x);
    } else {
        let front = endpoints.drop_last();
        let last = endpoints.last();
        let front_names = endpoint_names(front);
        assert(front_names =~= names.drop_last());
        assert(front_names.no_duplicates());
        assert(tables_assigned(front, routes, neighs)) by {
            assert forall|k: int| 0 <= k < front.len() implies (#[trigger] front[k]).routes
                == routes_of(routes, front[k].name) && front[k].neighs == neighs_of(
                neighs,
                front[k].name,
            ) by {
                assert(front[k] == endpoints[k]);
            }
        }
        lemma_endpoint_neighs_count(front, routes, neighs, x);
        assert(last == endpoints[endpoints.len() - 1]);
        lemma_neighs_of_count(neighs, last.name, x);
        lemma_multiset_commutative(endpoint_neighs(front), last.neighs);
        assert(names[names.len() - 1] == last.name);
        if front_names.contains(x.device) {
            let k = choose|k: int| 0 <= k < front_names.len() && front_names[k] == x.device;
            assert(names[k] == x.device);
            assert(last.name != x.device);
        } else if names.contains(x.device) {
            let k = choose|k: int| 0 <= k < names.len() && names[k] == x.device;
            if k < front_names.len() {
                assert(front_names[k] == x.device);
            }
        }
    }
}

/// No entry is lost and none is made up. Where the endpoints have
/// distinct names and each holds the entries of its device, the routes of
/// the endpoints together with the routes through no endpoint are the
/// routes of the table, each as often as the table has it; and so for the
/// neighbours.
pub proof fn lemma_tables_are_kept(
    endpoints: Seq<EndpointView>,
    routes: Seq<RouteView>,
    neighs: Seq<ARPNeighborView>,
)
    requires
        endpoint_names(endpoints).no_duplicates(),
        tables_assigned(endpoints, routes, neighs),
    ensures
        (endpoint_routes(endpoints) + unclaimed_routes(
            routes,
            endpoint_names(endpoints),
        )).to_multiset() == routes.to_multiset(),
        (endpoint_neighs(endpoints) + unclaimed_neighs(
            neighs,
            endpoint_names(endpoints),
        )).to_multiset() == neighs.to_multiset(),
{
    broadcast use vstd::multiset::group_multiset_axioms;

    let names = endpoint_names(endpoints);
    let given_routes = endpoint_routes(endpoints) + unclaimed_routes(routes, names);
    lemma_multiset_commutative(endpoint_routes(endpoints), unclaimed_routes(routes, names));
    assert forall|x: RouteView|
        given_routes.to_multiset().count(x) == routes.to_multiset().count(x) by {
        lemma_endpoint_routes_count(endpoints, routes, neighs, x);
        lemma_unclaimed_routes_count(routes, names, x);
    }
    assert(given_routes.to_multiset() =~= routes.to_multiset());
    let given_neighs = endpoint_neighs(endpoints) + unclaimed_neighs(neighs, names);
    lemma_multiset_commutative(endpoint_neighs(endpoints), unclaimed_neighs(neighs, names));
    assert forall|x: ARPNeighborView|
        given_neighs.to_multiset().count(x) == neighs.to_multiset().count(x) by {
        lemma_endpoint_neighs_count(endpoints, routes, neighs, x);
        lemma_unclaimed_neighs_count(neighs, names, x);
    }
    assert(given_neighs.to_multiset() =~= neighs.to_multiset());
}

/// Each endpoint that is built holds the entries of its device.
pub proof fn lemma_built_tables_assigned(
    infos: Seq<NetworkInfoView>,
    taken: Seq<Seq<char>>,
    routes: Seq<RouteView>,
    neighs: Seq<ARPNeighborView>,
)
    ensures
        tables_assigned(build_endpoints(infos, taken, routes, neighs).endpoints, routes, neighs),
    decreases infos.len(),
{
    if infos.len() > 0 {
        lemma_built_tables_assigned(infos.drop_last(), taken, routes, neighs);
        let prev = build_endpoints(infos.drop_last(), taken, routes, neighs);
        let built = build_endpoints(infos, taken, routes, neighs);
        assert forall|k: int| 0 <= k < built.endpoints.len() implies (
        #[trigger] built.endpoints[k]).routes == routes_of(routes, built.endpoints[k].name)
            && built.endpoints[k].neighs == neighs_of(neighs, built.endpoints[k].name) by {
            if k < prev.endpoints.len() {
                assert(built.endpoints[k] == prev.endpoints[k]);
            }
        }
    }
}

/// What a network hands to the guest reflects the namespace: the routes
/// and neighbours that it holds once the links have arrived are those
/// that arrived with them, each as often as it was reported.
pub proof fn lemma_network_keeps_tables(
    v: NetworkView,
    links: Seq<LinkRecordView>,
    routes: Seq<RouteView>,
    neighs: Seq<ARPNeighborView>,
    host_links: Seq<Seq<char>>,
)
    requires
        links.len() <= usize::MAX,
    ensures
        ({
            let next = discovered_step(v, links, routes, neighs, host_links).next;
            &&& (endpoint_routes(next.endpoints) + next.routes).to_multiset()
                == routes.to_multiset()
            &&& (endpoint_neighs(next.endpoints) + next.neighs).to_multiset()
                == neighs.to_multiset()
        }),
{
    let policy = policy_of(v.config);
    let infos = crate::discovery::discover_infos(links, policy);
    let taken = host_links + link_names(links);
    crate::sorting::lemma_sort_permutes(links);
    crate::discovery::lemma_infos_bounded(
        crate::sorting::sort_by_index(links),
        policy,
        u32::MAX as int,
    );
    lemma_build_wf(infos, taken, routes, neighs);
    lemma_built_tables_assigned(infos, taken, routes, neighs);
    lemma_tables_are_kept(build_endpoints(infos, taken, routes, neighs).endpoints, routes, neighs);
}

} // verus!
