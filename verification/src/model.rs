//! The network as a state machine: its states, the events that the driver
//! reports, the actions that it is told to perform, and the function from
//! state and event to next state and action.

use crate::discovery::{
    discover_infos, discover_warnings, DiscoveryPolicy, DiscoveryWarningView, LinkRecordView,
    NetworkInfoView, PhysicalPolicy, WarningKind,
};
use crate::endpoint::{
    attach_ops, description_spec, detach_ops, endpoint_spec, endpoint_wf, lemma_endpoint_wf,
    needs_pair, neighs_of, routes_of, snapshot_spec, state_matches, EndpointKind,
    EndpointStateView, EndpointView, InterfaceView,
};
use crate::host::{all_take_effect, lemma_undo_restores, run, HostState};
use crate::hostops::{lemma_undo_concat, undo};
use crate::hostops::HostOpView;
use crate::pair::{pair_names, NetworkPairView};
use crate::types::{flip_local_bit, ARPNeighborView, RouteView};
use vstd::prelude::*;

verus! {

/// Where a network stands in its life.
#[derive(Clone, Copy, Debug, PartialEq, Eq, Structural)]
pub enum NetworkState {
    Created,
    SettingUp,
    Ready,
    TearingDown,
    Removed,
    Failed,
}

/// What a network that is setting up or tearing down waits for.
#[derive(Clone, Copy, Debug, PartialEq, Eq, Structural)]
pub enum Phase {
    /// Nothing: no operation is under way.
    Idle,
    /// The links of the namespace.
    Discovering,
    /// The outcome of attaching the endpoint under the cursor.
    Attaching,
    /// The outcome of detaching the endpoint under the cursor, after an
    /// attach has failed.
    RollingBack,
    /// The outcome of detaching the endpoint under the cursor, on removal.
    Detaching,
}

/// What the network knows of an endpoint's device.
#[derive(Clone, Copy, Debug, PartialEq, Eq, Structural)]
pub enum Attachment {
    /// Not attached: never was, or was detached.
    Detached,
    /// Attached to the hypervisor.
    Attached,
    /// Was attached; detaching it was tried and failed.
    DetachFailed,
}

pub struct ConfigView {
    pub netns_path: Seq<char>,
    pub queues: u32,
    pub physical: PhysicalPolicy,
    pub network_created: bool,
}

pub enum NetworkErrorView {
    State { state: NetworkState },
    Namespace,
    Attach { endpoint: usize },
    Detach { endpoints: Seq<usize> },
    Stale { endpoint: usize },
    Cancelled,
}

pub enum EventView {
    Discovered {
        links: Seq<LinkRecordView>,
        routes: Seq<RouteView>,
        neighs: Seq<ARPNeighborView>,
        host_links: Seq<Seq<char>>,
    },
    NamespaceUnavailable,
    Attached,
    AttachFailed,
    Detached,
    DetachFailed,
    Cancelled,
}

pub enum ActionView {
    Discover { netns_path: Seq<char> },
    Attach { endpoint: usize, ops: Seq<HostOpView> },
    Detach { endpoint: usize, ops: Seq<HostOpView> },
    Finished { result: Result<(), NetworkErrorView> },
}

/// The state of a network.
pub struct NetworkView {
    pub config: ConfigView,
    pub state: NetworkState,
    pub phase: Phase,
    /// The endpoint that the pending action is about.
    pub cursor: usize,
    /// The endpoints, in discovery order.
    pub endpoints: Seq<EndpointView>,
    /// For each endpoint, whether its device is attached.
    pub status: Seq<Attachment>,
    /// Routes of the namespace that go through none of the endpoints.
    pub routes: Seq<RouteView>,
    /// Neighbours of the namespace that are on none of the endpoints.
    pub neighs: Seq<ARPNeighborView>,
    /// One warning for each interface that was skipped.
    pub warnings: Seq<DiscoveryWarningView>,
    /// The failure that made setup roll back, or that the network ended on.
    pub error: Option<NetworkErrorView>,
}

/// A step of the machine: the state it leads to, and the action to perform
/// next or the error with which the call is refused.
pub struct Step {
    pub next: NetworkView,
    pub action: Result<ActionView, NetworkErrorView>,
}

/// What building the endpoints yields.
pub struct Built {
    pub endpoints: Seq<EndpointView>,
    pub warnings: Seq<DiscoveryWarningView>,
    /// The names in use once the endpoints' generated names are counted in.
    pub taken: Seq<Seq<char>>,
}

/// The names of the links.
pub open spec fn link_names(links: Seq<LinkRecordView>) -> Seq<Seq<char>> {
    Seq::new(links.len(), |i: int| links[i].name)
}

/// The names of the endpoints.
pub open spec fn endpoint_names(endpoints: Seq<EndpointView>) -> Seq<Seq<char>> {
    Seq::new(endpoints.len(), |i: int| endpoints[i].name)
}

/// The names that an endpoint's pair adds to the ones in use.
pub open spec fn generated_names(e: EndpointView) -> Seq<Seq<char>> {
    match e.pair {
        Some(p) => pair_names(p),
        None => Seq::empty(),
    }
}

/// The endpoints for the interfaces `infos`, built one after the other.
/// Each takes the next free slot, and its generated names count as taken
/// for those that follow. An interface that has the name of an endpoint
/// built before it, or for which no endpoint can be built, leaves a
/// warning.
pub open spec fn build_endpoints(
    infos: Seq<NetworkInfoView>,
    taken: Seq<Seq<char>>,
    routes: Seq<RouteView>,
    neighs: Seq<ARPNeighborView>,
) -> Built
    decreases infos.len(),
{
    if infos.len() == 0 {
        Built { endpoints: Seq::empty(), warnings: Seq::empty(), taken }
    } else {
        let prev = build_endpoints(infos.drop_last(), taken, routes, neighs);
        let info = infos.last();
        let built = if endpoint_names(prev.endpoints).contains(info.name) {
            Err(WarningKind::DuplicateName)
        } else {
            endpoint_spec(info, prev.endpoints.len() as usize, prev.taken, routes, neighs)
        };
        match built {
            Ok(e) => Built {
                endpoints: prev.endpoints.push(e),
                warnings: prev.warnings,
                taken: prev.taken + generated_names(e),
            },
            Err(kind) => Built {
                endpoints: prev.endpoints,
                warnings: prev.warnings.push(
                    DiscoveryWarningView { index: info.index, name: info.name, kind },
                ),
                taken: prev.taken,
            },
        }
    }
}

/// The routes among `all` that go through none of the devices `names`.
pub open spec fn unclaimed_routes(all: Seq<RouteView>, names: Seq<Seq<char>>) -> Seq<RouteView>
    decreases all.len(),
{
    if all.len() == 0 {
        Seq::empty()
    } else if names.contains(all.last().device) {
        unclaimed_routes(all.drop_last(), names)
    } else {
        unclaimed_routes(all.drop_last(), names).push(all.last())
    }
}

/// The neighbours among `all` that are on none of the devices `names`.
pub open spec fn unclaimed_neighs(all: Seq<ARPNeighborView>, names: Seq<Seq<char>>) -> Seq<
    ARPNeighborView,
>
    decreases all.len(),
{
    if all.len() == 0 {
        Seq::empty()
    } else if names.contains(all.last().device) {
        unclaimed_neighs(all.drop_last(), names)
    } else {
        unclaimed_neighs(all.drop_last(), names).push(all.last())
    }
}

/// The endpoints whose detaching failed, by ascending slot.
pub open spec fn failed_endpoints(status: Seq<Attachment>) -> Seq<usize>
    decreases status.len(),
{
    if status.len() == 0 {
        Seq::empty()
    } else if status.last() == Attachment::DetachFailed {
        failed_endpoints(status.drop_last()).push((status.len() - 1) as usize)
    } else {
        failed_endpoints(status.drop_last())
    }
}

/// The routes of the endpoints, endpoint by endpoint.
pub open spec fn endpoint_routes(endpoints: Seq<EndpointView>) -> Seq<RouteView>
    decreases endpoints.len(),
{
    if endpoints.len() == 0 {
        Seq::empty()
    } else {
        endpoint_routes(endpoints.drop_last()) + endpoints.last().routes
    }
}

/// The neighbours of the endpoints, endpoint by endpoint.
pub open spec fn endpoint_neighs(endpoints: Seq<EndpointView>) -> Seq<ARPNeighborView>
    decreases endpoints.len(),
{
    if endpoints.len() == 0 {
        Seq::empty()
    } else {
        endpoint_neighs(endpoints.drop_last()) + endpoints.last().neighs
    }
}

/// The discovery policy that a configuration asks for.
pub open spec fn policy_of(config: ConfigView) -> DiscoveryPolicy {
    DiscoveryPolicy { physical: config.physical, max_queues: config.queues }
}

/// The refusal of a call or event that the state does not allow; the state
/// stays as it is.
pub open spec fn refuse(v: NetworkView) -> Step {
    Step { next: v, action: Err(NetworkErrorView::State { state: v.state }) }
}

/// The action that attaches the endpoint at `slot`.
pub open spec fn attach_action(v: NetworkView, slot: usize) -> ActionView {
    ActionView::Attach { endpoint: slot, ops: attach_ops(v.endpoints[slot as int]) }
}

/// The action that detaches the endpoint at `slot`.
pub open spec fn detach_action(v: NetworkView, slot: usize) -> ActionView {
    ActionView::Detach { endpoint: slot, ops: detach_ops(v.endpoints[slot as int]) }
}

/// The network ends in `state`, and the operation under way returns
/// `result`.
pub open spec fn finish(
    v: NetworkView,
    state: NetworkState,
    result: Result<(), NetworkErrorView>,
) -> Step {
    Step {
        next: NetworkView {
            state,
            phase: Phase::Idle,
            error: match result {
                Ok(_) => v.error,
                Err(e) => Some(e),
            },
            ..v
        },
        action: Ok(ActionView::Finished { result }),
    }
}

/// Starting setup. It is allowed on a network that was just created, and
/// refused in every other state. A network without a namespace path has
/// nothing to discover and is ready at once; any other asks for the links
/// of its namespace.
pub open spec fn setup_step(v: NetworkView) -> Step {
    if v.state != NetworkState::Created {
        refuse(v)
    } else if v.config.netns_path.len() == 0 {
        finish(v, NetworkState::Ready, Ok(()))
    } else {
        Step {
            next: NetworkView { state: NetworkState::SettingUp, phase: Phase::Discovering, ..v },
            action: Ok(ActionView::Discover { netns_path: v.config.netns_path }),
        }
    }
}

/// Starting removal. It is allowed on a ready network and refused in every
/// other state. The endpoints are detached last one first.
pub open spec fn remove_step(v: NetworkView) -> Step {
    if v.state != NetworkState::Ready {
        refuse(v)
    } else if v.endpoints.len() == 0 {
        finish(v, NetworkState::Removed, Ok(()))
    } else {
        let last = (v.endpoints.len() - 1) as usize;
        Step {
            next: NetworkView {
                state: NetworkState::TearingDown,
                phase: Phase::Detaching,
                cursor: last,
                ..v
            },
            action: Ok(detach_action(v, last)),
        }
    }
}

/// The links of the namespace have arrived. The interfaces are discovered,
/// an endpoint is built for each, and the first one is to be attached; with
/// no endpoint at all the network is ready.
pub open spec fn discovered_step(
    v: NetworkView,
    links: Seq<LinkRecordView>,
    routes: Seq<RouteView>,
    neighs: Seq<ARPNeighborView>,
    host_links: Seq<Seq<char>>,
) -> Step {
    let policy = policy_of(v.config);
    let built = build_endpoints(
        discover_infos(links, policy),
        host_links + link_names(links),
        routes,
        neighs,
    );
    let names = endpoint_names(built.endpoints);
    let found = NetworkView {
        endpoints: built.endpoints,
        status: Seq::new(built.endpoints.len(), |i: int| Attachment::Detached),
        routes: unclaimed_routes(routes, names),
        neighs: unclaimed_neighs(neighs, names),
        warnings: discover_warnings(links, policy) + built.warnings,
        ..v
    };
    if built.endpoints.len() == 0 {
        finish(found, NetworkState::Ready, Ok(()))
    } else {
        Step {
            next: NetworkView { phase: Phase::Attaching, cursor: 0, ..found },
            action: Ok(attach_action(found, 0)),
        }
    }
}

/// The endpoint under the cursor is attached. The next one is to be
/// attached; after the last one the network is ready.
pub open spec fn attached_step(v: NetworkView) -> Step {
    let marked = NetworkView {
        status: v.status.update(v.cursor as int, Attachment::Attached),
        ..v
    };
    if v.cursor + 1 < v.endpoints.len() {
        let next = (v.cursor + 1) as usize;
        Step { next: NetworkView { cursor: next, ..marked }, action: Ok(attach_action(v, next)) }
    } else {
        finish(marked, NetworkState::Ready, Ok(()))
    }
}

/// Attaching the endpoint under the cursor has failed with `error`. The
/// endpoints attached before it are to be detached, last one first; with
/// none attached the network has failed.
pub open spec fn attach_failed_step(v: NetworkView, error: NetworkErrorView) -> Step {
    if v.cursor == 0 {
        finish(v, NetworkState::Failed, Err(error))
    } else {
        let previous = (v.cursor - 1) as usize;
        Step {
            next: NetworkView {
                phase: Phase::RollingBack,
                cursor: previous,
                error: Some(error),
                ..v
            },
            action: Ok(detach_action(v, previous)),
        }
    }
}

/// Detaching the endpoint under the cursor has ended, well or not. The one
/// before it is to be detached. After the first one the operation is over:
/// a rollback ends in failure with the error that caused it; a removal ends
/// in `Removed` if every detach went well, and else in failure with the
/// endpoints that could not be detached.
pub open spec fn detached_step(v: NetworkView, detached: bool) -> Step {
    let marked = NetworkView {
        status: v.status.update(
            v.cursor as int,
            if detached {
                Attachment::Detached
            } else {
                Attachment::DetachFailed
            },
        ),
        ..v
    };
    if v.cursor > 0 {
        let previous = (v.cursor - 1) as usize;
        Step {
            next: NetworkView { cursor: previous, ..marked },
            action: Ok(detach_action(v, previous)),
        }
    } else if v.phase == Phase::RollingBack {
        finish(marked, NetworkState::Failed, Err(v.error->0))
    } else if failed_endpoints(marked.status).len() == 0 {
        finish(marked, NetworkState::Removed, Ok(()))
    } else {
        finish(
            marked,
            NetworkState::Failed,
            Err(NetworkErrorView::Detach { endpoints: failed_endpoints(marked.status) }),
        )
    }
}

/// The step that an event causes. An event that the network does not wait
/// for is refused and changes nothing. A setup that its caller gives up is
/// treated as one whose pending step failed: what was attached is rolled
/// back before the setup ends. A rollback or a removal cannot be given up.
pub open spec fn advance_step(v: NetworkView, event: EventView) -> Step {
    match (v.phase, event) {
        (Phase::Discovering, EventView::Discovered { links, routes, neighs, host_links }) => {
            discovered_step(v, links, routes, neighs, host_links)
        },
        (Phase::Discovering, EventView::NamespaceUnavailable) => finish(
            v,
            NetworkState::Failed,
            Err(NetworkErrorView::Namespace),
        ),
        (Phase::Attaching, EventView::Attached) => attached_step(v),
        (Phase::Attaching, EventView::AttachFailed) => attach_failed_step(
            v,
            NetworkErrorView::Attach { endpoint: v.cursor },
        ),
        (Phase::Attaching, EventView::NamespaceUnavailable) => attach_failed_step(
            v,
            NetworkErrorView::Namespace,
        ),
        (Phase::Discovering, EventView::Cancelled) => finish(
            v,
            NetworkState::Failed,
            Err(NetworkErrorView::Cancelled),
        ),
        (Phase::Attaching, EventView::Cancelled) => attach_failed_step(
            v,
            NetworkErrorView::Cancelled,
        ),
        (Phase::RollingBack, EventView::Detached) => detached_step(v, true),
        (Phase::RollingBack, EventView::DetachFailed) => detached_step(v, false),
        (Phase::RollingBack, EventView::NamespaceUnavailable) => detached_step(v, false),
        (Phase::Detaching, EventView::Detached) => detached_step(v, true),
        (Phase::Detaching, EventView::DetachFailed) => detached_step(v, false),
        (Phase::Detaching, EventView::NamespaceUnavailable) => detached_step(v, false),
        _ => refuse(v),
    }
}

/// Whether every endpoint has the given status.
pub open spec fn all_status(status: Seq<Attachment>, a: Attachment) -> bool {
    forall|i: int| 0 <= i < status.len() ==> status[i] == a
}

/// Whether no endpoint is attached.
pub open spec fn none_attached(status: Seq<Attachment>) -> bool {
    forall|i: int| 0 <= i < status.len() ==> status[i] != Attachment::Attached
}

/// What holds of a network in every state it can reach.
pub open spec fn network_wf(v: NetworkView) -> bool {
    &&& v.status.len() == v.endpoints.len()
    &&& v.endpoints.len() <= usize::MAX
    &&& endpoint_names(v.endpoints).no_duplicates()
    &&& forall|i: int|
        0 <= i < v.endpoints.len() ==> endpoint_wf(#[trigger] v.endpoints[i])
            && v.endpoints[i].index == i
    &&& match v.state {
        NetworkState::Created => v.phase == Phase::Idle && v.endpoints.len() == 0,
        NetworkState::SettingUp => match v.phase {
            Phase::Discovering => v.endpoints.len() == 0,
            Phase::Attaching => {
                &&& v.cursor < v.endpoints.len()
                &&& forall|i: int| 0 <= i < v.cursor ==> v.status[i] == Attachment::Attached
                &&& forall|i: int|
                    v.cursor <= i < v.status.len() ==> v.status[i] == Attachment::Detached
            },
            Phase::RollingBack => {
                &&& v.cursor < v.endpoints.len()
                &&& v.error is Some
                &&& forall|i: int| 0 <= i <= v.cursor ==> v.status[i] == Attachment::Attached
                &&& forall|i: int|
                    v.cursor < i < v.status.len() ==> v.status[i] != Attachment::Attached
            },
            _ => false,
        },
        NetworkState::Ready => v.phase == Phase::Idle && all_status(
            v.status,
            Attachment::Attached,
        ),
        NetworkState::TearingDown => {
            &&& v.phase == Phase::Detaching
            &&& v.cursor < v.endpoints.len()
            &&& forall|i: int| 0 <= i <= v.cursor ==> v.status[i] == Attachment::Attached
            &&& forall|i: int| v.cursor < i < v.status.len() ==> v.status[i] != Attachment::Attached
        },
        NetworkState::Removed => v.phase == Phase::Idle && all_status(
            v.status,
            Attachment::Detached,
        ),
        NetworkState::Failed => v.phase == Phase::Idle && v.error is Some && none_attached(
            v.status,
        ),
    }
}

/// The state of a network that was just created for `config`.
pub open spec fn initial(config: ConfigView) -> NetworkView {
    NetworkView {
        config,
        state: NetworkState::Created,
        phase: Phase::Idle,
        cursor: 0,
        endpoints: Seq::empty(),
        status: Seq::empty(),
        routes: Seq::empty(),
        neighs: Seq::empty(),
        warnings: Seq::empty(),
        error: None,
    }
}

/// What `interfaces` returns: on a ready network the interface of each
/// endpoint, in discovery order; in any other state a state error.
pub open spec fn interfaces_spec(v: NetworkView) -> Result<Seq<InterfaceView>, NetworkErrorView> {
    if v.state == NetworkState::Ready {
        Ok(Seq::new(v.endpoints.len(), |i: int| description_spec(v.endpoints[i]).interface))
    } else {
        Err(NetworkErrorView::State { state: v.state })
    }
}

/// What `routes` returns: on a ready network the routes of the endpoints,
/// endpoint by endpoint, followed by those through no endpoint; in any
/// other state a state error.
pub open spec fn routes_spec(v: NetworkView) -> Result<Seq<RouteView>, NetworkErrorView> {
    if v.state == NetworkState::Ready {
        Ok(endpoint_routes(v.endpoints) + v.routes)
    } else {
        Err(NetworkErrorView::State { state: v.state })
    }
}

/// What `neighs` returns: on a ready network the neighbours of the
/// endpoints, endpoint by endpoint, followed by those on no endpoint; in
/// any other state a state error.
pub open spec fn neighs_spec(v: NetworkView) -> Result<Seq<ARPNeighborView>, NetworkErrorView> {
    if v.state == NetworkState::Ready {
        Ok(endpoint_neighs(v.endpoints) + v.neighs)
    } else {
        Err(NetworkErrorView::State { state: v.state })
    }
}

/// What `save` returns: the snapshot of each endpoint of a ready network,
/// in discovery order; nothing where the network is not ready or has no
/// endpoint.
pub open spec fn save_spec(v: NetworkView) -> Option<Seq<EndpointStateView>> {
    if v.state == NetworkState::Ready && v.endpoints.len() > 0 {
        Some(Seq::new(v.endpoints.len(), |i: int| snapshot_spec(v.endpoints[i])))
    } else {
        None
    }
}

/// The state after the events `events`, reported in order.
pub open spec fn run_events(v: NetworkView, events: Seq<EventView>) -> NetworkView
    decreases events.len(),
{
    if events.len() == 0 {
        v
    } else {
        advance_step(run_events(v, events.drop_last()), events.last()).next
    }
}

/// The event that reports how a detach ended.
pub open spec fn detach_report(detached: bool) -> EventView {
    if detached {
        EventView::Detached
    } else {
        EventView::DetachFailed
    }
}

/// The events that report how a run of detaches ended.
pub open spec fn detach_reports(outcomes: Seq<bool>) -> Seq<EventView> {
    Seq::new(outcomes.len(), |i: int| detach_report(outcomes[i]))
}

/// The steps that attach all of `endpoints`, in discovery order.
pub open spec fn setup_ops(endpoints: Seq<EndpointView>) -> Seq<HostOpView>
    decreases endpoints.len(),
{
    if endpoints.len() == 0 {
        Seq::empty()
    } else {
        setup_ops(endpoints.drop_last()) + attach_ops(endpoints.last())
    }
}

/// The steps that detach all of `endpoints`, last endpoint first.
pub open spec fn teardown_ops(endpoints: Seq<EndpointView>) -> Seq<HostOpView>
    decreases endpoints.len(),
{
    if endpoints.len() == 0 {
        Seq::empty()
    } else {
        detach_ops(endpoints.last()) + teardown_ops(endpoints.drop_last())
    }
}

/// The endpoints that are built are well formed, each sits at the slot
/// that its index names, and there are no more of them than interfaces.
pub proof fn lemma_build_wf(
    infos: Seq<NetworkInfoView>,
    taken: Seq<Seq<char>>,
    routes: Seq<RouteView>,
    neighs: Seq<ARPNeighborView>,
)
    requires
        infos.len() <= usize::MAX,
    ensures
        build_endpoints(infos, taken, routes, neighs).endpoints.len() <= infos.len(),
        endpoint_names(build_endpoints(infos, taken, routes, neighs).endpoints).no_duplicates(),
        forall|i: int|
            0 <= i < build_endpoints(infos, taken, routes, neighs).endpoints.len() ==> {
                &&& endpoint_wf(
                    #[trigger] build_endpoints(infos, taken, routes, neighs).endpoints[i],
                )
                &&& build_endpoints(infos, taken, routes, neighs).endpoints[i].index == i
            },
    decreases infos.len(),
{
    if infos.len() > 0 {
        lemma_build_wf(infos.drop_last(), taken, routes, neighs);
        let prev = build_endpoints(infos.drop_last(), taken, routes, neighs);
        lemma_endpoint_wf(infos.last(), prev.endpoints.len() as usize, prev.taken, routes, neighs);
        let built = build_endpoints(infos, taken, routes, neighs);
        assert forall|i: int| 0 <= i < built.endpoints.len() implies endpoint_wf(
            #[trigger] built.endpoints[i],
        ) && built.endpoints[i].index == i by {
            if i < prev.endpoints.len() {
                assert(built.endpoints[i] == prev.endpoints[i]);
            }
        }
        let names = endpoint_names(built.endpoints);
        let before = endpoint_names(prev.endpoints);
        assert forall|i: int, j: int| 0 <= i < names.len() && 0 <= j < names.len() && i
            != j implies names[i] != names[j] by {
            if i < before.len() {
                assert(names[i] == before[i]);
            }
            if j < before.len() {
                assert(names[j] == before[j]);
            }
        }
    }
}

/// Starting setup keeps the network well formed.
pub proof fn lemma_setup_keeps_wf(v: NetworkView)
    requires
        network_wf(v),
    ensures
        network_wf(setup_step(v).next),
{
}

/// Starting removal keeps the network well formed.
pub proof fn lemma_remove_keeps_wf(v: NetworkView)
    requires
        network_wf(v),
    ensures
        network_wf(remove_step(v).next),
{
}

/// The arrival of the links keeps the network well formed, provided their
/// number fits the machine.
pub proof fn lemma_discovered_keeps_wf(
    v: NetworkView,
    links: Seq<LinkRecordView>,
    routes: Seq<RouteView>,
    neighs: Seq<ARPNeighborView>,
    host_links: Seq<Seq<char>>,
)
    requires
        network_wf(v),
        v.phase == Phase::Discovering,
        links.len() <= usize::MAX,
    ensures
        network_wf(discovered_step(v, links, routes, neighs, host_links).next),
{
    let policy = policy_of(v.config);
    let infos = discover_infos(links, policy);
    crate::sorting::lemma_sort_permutes(links);
    crate::discovery::lemma_infos_bounded(
        crate::sorting::sort_by_index(links),
        policy,
        u32::MAX as int,
    );
    lemma_build_wf(infos, host_links + link_names(links), routes, neighs);
}

/// The report of an attach keeps the network well formed.
pub proof fn lemma_attached_keeps_wf(v: NetworkView)
    requires
        network_wf(v),
        v.phase == Phase::Attaching,
    ensures
        network_wf(attached_step(v).next),
{
}

/// The report of a failed attach keeps the network well formed.
pub proof fn lemma_attach_failed_keeps_wf(v: NetworkView, error: NetworkErrorView)
    requires
        network_wf(v),
        v.phase == Phase::Attaching,
    ensures
        network_wf(attach_failed_step(v, error).next),
{
}

/// The endpoints listed as failed are exactly those whose detaching
/// failed, by ascending slot.
pub proof fn lemma_failed_endpoints(status: Seq<Attachment>)
    requires
        status.len() <= usize::MAX,
    ensures
        forall|i: int|
            0 <= i < status.len() ==> (status[i] == Attachment::DetachFailed
                <==> failed_endpoints(status).contains(i as usize)),
        forall|k: int|
            0 <= k < failed_endpoints(status).len() ==> (#[trigger] failed_endpoints(status)[k])
                < status.len(),
        forall|j: int, k: int|
            0 <= j < k < failed_endpoints(status).len() ==> failed_endpoints(status)[j]
                < failed_endpoints(status)[k],
    decreases status.len(),
{
    if status.len() > 0 {
        let front = status.drop_last();
        let last = (status.len() - 1) as usize;
        lemma_failed_endpoints(front);
        let rest = failed_endpoints(front);
        let all = failed_endpoints(status);
        assert forall|i: int| 0 <= i < status.len() implies (status[i] == Attachment::DetachFailed
            <==> all.contains(i as usize)) by {
            if i < front.len() {
                assert(front[i] == status[i]);
                if rest.contains(i as usize) {
                    let k = choose|k: int| 0 <= k < rest.len() && rest[k] == i as usize;
                    assert(all[k] == i as usize);
                }
                if all.contains(i as usize) {
                    let k = choose|k: int| 0 <= k < all.len() && all[k] == i as usize;
                    if k < rest.len() {
                        assert(rest[k] == i as usize);
                    }
                }
            } else {
                if status[i] == Attachment::DetachFailed {
                    assert(all[all.len() - 1] == last);
                }
                if all.contains(i as usize) {
                    let k = choose|k: int| 0 <= k < all.len() && all[k] == i as usize;
                    if k < rest.len() {
                        assert(rest[k] < front.len());
                    }
                }
            }
        }
    }
}

/// The report of a detach keeps the network well formed.
pub proof fn lemma_detached_keeps_wf(v: NetworkView, detached: bool)
    requires
        network_wf(v),
        v.phase == Phase::RollingBack || v.phase == Phase::Detaching,
    ensures
        network_wf(detached_step(v, detached).next),
{
    let step = detached_step(v, detached);
    lemma_failed_endpoints(step.next.status);
    if v.cursor == 0 && v.phase == Phase::Detaching && failed_endpoints(step.next.status).len()
        == 0 {
        assert forall|i: int| 0 <= i < step.next.status.len() implies step.next.status[i]
            == Attachment::Detached by {
            if step.next.status[i] == Attachment::DetachFailed {
                assert(failed_endpoints(step.next.status).contains(i as usize));
            }
        }
    }
}

/// Every event keeps the network well formed, provided the number of
/// links that it reports fits the machine.
pub proof fn lemma_advance_keeps_wf(v: NetworkView, event: EventView)
    requires
        network_wf(v),
        event matches EventView::Discovered { links, .. } ==> links.len() <= usize::MAX,
    ensures
        network_wf(advance_step(v, event).next),
{
    match (v.phase, event) {
        (Phase::Discovering, EventView::Discovered { links, routes, neighs, host_links }) => {
            lemma_discovered_keeps_wf(v, links, routes, neighs, host_links);
        },
        (Phase::Attaching, EventView::Attached) => {
            lemma_attached_keeps_wf(v);
        },
        (Phase::Attaching, EventView::AttachFailed) => {
            lemma_attach_failed_keeps_wf(v, NetworkErrorView::Attach { endpoint: v.cursor });
        },
        (Phase::Attaching, EventView::NamespaceUnavailable) => {
            lemma_attach_failed_keeps_wf(v, NetworkErrorView::Namespace);
        },
        (Phase::Attaching, EventView::Cancelled) => {
            lemma_attach_failed_keeps_wf(v, NetworkErrorView::Cancelled);
        },
        (Phase::RollingBack, EventView::Detached) => {
            lemma_detached_keeps_wf(v, true);
        },
        (Phase::RollingBack, EventView::DetachFailed) => {
            lemma_detached_keeps_wf(v, false);
        },
        (Phase::RollingBack, EventView::NamespaceUnavailable) => {
            lemma_detached_keeps_wf(v, false);
        },
        (Phase::Detaching, EventView::Detached) => {
            lemma_detached_keeps_wf(v, true);
        },
        (Phase::Detaching, EventView::DetachFailed) => {
            lemma_detached_keeps_wf(v, false);
        },
        (Phase::Detaching, EventView::NamespaceUnavailable) => {
            lemma_detached_keeps_wf(v, false);
        },
        _ => {},
    }
}

/// Reporting an event and then further events is reporting them all.
pub proof fn lemma_run_events_first(v: NetworkView, event: EventView, rest: Seq<EventView>)
    ensures
        run_events(v, seq![event] + rest) == run_events(advance_step(v, event).next, rest),
    decreases rest.len(),
{
    let all = seq![event] + rest;
    if rest.len() == 0 {
        assert(all.drop_last() =~= Seq::<EventView>::empty());
        assert(all.last() == event);
        assert(run_events(v, all.drop_last()) == v);
    } else {
        assert(all.drop_last() =~= seq![event] + rest.drop_last());
        assert(all.last() == rest.last());
        lemma_run_events_first(v, event, rest.drop_last());
    }
}

/// Setup cannot be started twice, nor on a network that is ready or was
/// removed: in every state but `Created` it is refused with a state error,
/// the network stays as it is, and no action is handed out.
pub proof fn lemma_setup_refused_unless_created(v: NetworkView)
    requires
        v.state != NetworkState::Created,
    ensures
        setup_step(v).next == v,
        setup_step(v).action == Err::<ActionView, NetworkErrorView>(
            NetworkErrorView::State { state: v.state },
        ),
{
}

/// Removal cannot be run a second time: on a network that was removed it
/// is refused with a state error, the network stays as it is, and no action
/// is handed out. The same holds in every state but `Ready`.
pub proof fn lemma_remove_refused_unless_ready(v: NetworkView)
    requires
        v.state != NetworkState::Ready,
    ensures
        remove_step(v).next == v,
        remove_step(v).action == Err::<ActionView, NetworkErrorView>(
            NetworkErrorView::State { state: v.state },
        ),
{
}

/// Whether the network is rolling back a failed setup or has failed.
pub open spec fn rolling_back_or_failed(v: NetworkView) -> bool {
    (v.state == NetworkState::SettingUp && v.phase == Phase::RollingBack) || v.state
        == NetworkState::Failed
}

/// Once attaching an endpoint has failed or setup was given up, the
/// network does not become ready. Whatever the driver reports afterwards,
/// the network is rolling back or has failed, and once it has failed no
/// endpoint is attached.
pub proof fn lemma_failed_attach_never_ready(
    v: NetworkView,
    failure: EventView,
    later: Seq<EventView>,
)
    requires
        network_wf(v),
        v.phase == Phase::Attaching,
        failure is AttachFailed || failure is NamespaceUnavailable || failure is Cancelled,
    ensures
        ({
            let end = run_events(advance_step(v, failure).next, later);
            &&& network_wf(end)
            &&& rolling_back_or_failed(end)
            &&& end.state != NetworkState::Ready
            &&& end.state == NetworkState::Failed ==> none_attached(end.status)
        }),
    decreases later.len(),
{
    lemma_advance_keeps_wf(v, failure);
    if later.len() > 0 {
        lemma_failed_attach_never_ready(v, failure, later.drop_last());
        let before = run_events(advance_step(v, failure).next, later.drop_last());
        match later.last() {
            EventView::Discovered { .. } => {},
            _ => {
                lemma_advance_keeps_wf(before, later.last());
            },
        }
    }
}

/// The outcome recorded for the endpoint at `slot` when the detaches that
/// started at `cursor` ended as `outcomes` tells, first outcome first.
pub open spec fn recorded(outcomes: Seq<bool>, cursor: usize, slot: int) -> Attachment {
    if outcomes[cursor - slot] {
        Attachment::Detached
    } else {
        Attachment::DetachFailed
    }
}

/// A run of detaches comes to an end. When the driver has reported on the
/// endpoint under the cursor and on each one before it, the operation is
/// over and every one of them is marked as the driver reported. A rollback
/// then has failed with the error that caused it. A removal has ended in
/// `Removed` if no detach failed, and else in `Failed` with the endpoints
/// whose detach failed.
pub proof fn lemma_detaches_complete(v: NetworkView, outcomes: Seq<bool>)
    requires
        network_wf(v),
        v.phase == Phase::RollingBack || v.phase == Phase::Detaching,
        outcomes.len() == v.cursor + 1,
    ensures
        ({
            let end = run_events(v, detach_reports(outcomes));
            &&& end.phase == Phase::Idle
            &&& end.endpoints == v.endpoints
            &&& end.status.len() == v.status.len()
            &&& forall|i: int|
                0 <= i <= v.cursor ==> end.status[i] == recorded(outcomes, v.cursor, i)
            &&& forall|i: int| v.cursor < i < v.status.len() ==> end.status[i] == v.status[i]
            &&& v.phase == Phase::RollingBack ==> end.state == NetworkState::Failed && end.error
                == v.error
            &&& v.phase == Phase::Detaching ==> end.state == (if failed_endpoints(end.status).len()
                == 0 {
                NetworkState::Removed
            } else {
                NetworkState::Failed
            })
            &&& v.phase == Phase::Detaching && failed_endpoints(end.status).len() > 0 ==> end.error
                == Some(NetworkErrorView::Detach { endpoints: failed_endpoints(end.status) })
        }),
    decreases outcomes.len(),
{
    let reports = detach_reports(outcomes);
    let first = detach_report(outcomes[0]);
    let rest = outcomes.subrange(1, outcomes.len() as int);
    assert(reports =~= seq![first] + detach_reports(rest));
    lemma_run_events_first(v, first, detach_reports(rest));
    let next = advance_step(v, first).next;
    assert(next == detached_step(v, outcomes[0]).next);
    lemma_detached_keeps_wf(v, outcomes[0]);
    if v.cursor > 0 {
        lemma_detaches_complete(next, rest);
        let end = run_events(next, detach_reports(rest));
        assert forall|i: int| 0 <= i <= v.cursor implies end.status[i] == recorded(
            outcomes,
            v.cursor,
            i,
        ) by {
            if i < v.cursor {
                assert(rest[next.cursor - i] == outcomes[v.cursor - i]);
            }
        }
    } else {
        assert(detach_reports(rest) =~= Seq::<EventView>::empty());
    }
}

/// A failed setup leaves nothing attached. When attaching an endpoint
/// fails, or setup is given up, and the driver then reports on the detach
/// of each endpoint that was attached before, the network has failed, with
/// the error of the attach; and if every one of those detaches went well,
/// every endpoint is detached.
pub proof fn lemma_failed_setup_leaves_nothing_attached(
    v: NetworkView,
    failure: EventView,
    outcomes: Seq<bool>,
)
    requires
        network_wf(v),
        v.phase == Phase::Attaching,
        failure is AttachFailed || failure is NamespaceUnavailable || failure is Cancelled,
        outcomes.len() == v.cursor,
    ensures
        ({
            let end = run_events(advance_step(v, failure).next, detach_reports(outcomes));
            &&& end.state == NetworkState::Failed
            &&& end.error == Some(
                if failure is AttachFailed {
                    NetworkErrorView::Attach { endpoint: v.cursor }
                } else if failure is Cancelled {
                    NetworkErrorView::Cancelled
                } else {
                    NetworkErrorView::Namespace
                },
            )
            &&& none_attached(end.status)
            &&& (forall|k: int| 0 <= k < outcomes.len() ==> outcomes[k]) ==> all_status(
                end.status,
                Attachment::Detached,
            )
        }),
{
    let next = advance_step(v, failure).next;
    lemma_advance_keeps_wf(v, failure);
    if v.cursor == 0 {
        assert(detach_reports(outcomes) =~= Seq::<EventView>::empty());
    } else {
        lemma_detaches_complete(next, outcomes);
        let end = run_events(next, detach_reports(outcomes));
        assert forall|i: int| 0 <= i < end.status.len() implies end.status[i]
            != Attachment::Attached by {
            if i > next.cursor {
                assert(end.status[i] == v.status[i]);
            }
        }
        if forall|k: int| 0 <= k < outcomes.len() ==> outcomes[k] {
            assert forall|i: int| 0 <= i < end.status.len() implies end.status[i]
                == Attachment::Detached by {
                if i > next.cursor {
                    assert(end.status[i] == v.status[i]);
                } else {
                    assert(outcomes[next.cursor - i]);
                }
            }
        }
    }
}

/// Removal detaches everything. When a ready network is removed and the
/// driver reports that each detach went well, one report per endpoint, the
/// network is `Removed` and every endpoint is detached.
pub proof fn lemma_removal_detaches_all(v: NetworkView, outcomes: Seq<bool>)
    requires
        network_wf(v),
        v.state == NetworkState::Ready,
        outcomes.len() == v.endpoints.len(),
        forall|k: int| 0 <= k < outcomes.len() ==> outcomes[k],
    ensures
        ({
            let end = run_events(remove_step(v).next, detach_reports(outcomes));
            &&& end.state == NetworkState::Removed
            &&& all_status(end.status, Attachment::Detached)
        }),
{
    let next = remove_step(v).next;
    lemma_remove_keeps_wf(v);
    if v.endpoints.len() == 0 {
        assert(detach_reports(outcomes) =~= Seq::<EventView>::empty());
    } else {
        lemma_detaches_complete(next, outcomes);
        let end = run_events(next, detach_reports(outcomes));
        lemma_failed_endpoints(end.status);
        assert forall|i: int| 0 <= i < end.status.len() implies end.status[i]
            == Attachment::Detached by {
            assert(outcomes[next.cursor - i]);
        }
        if failed_endpoints(end.status).len() > 0 {
            let slot = failed_endpoints(end.status)[0];
            assert(failed_endpoints(end.status).contains(slot));
            assert(end.status[slot as int] == Attachment::DetachFailed);
        }
    }
}

/// Detaching all endpoints, last one first, reverts attaching them all.
pub proof fn lemma_teardown_is_undo(endpoints: Seq<EndpointView>)
    ensures
        teardown_ops(endpoints) == undo(setup_ops(endpoints)),
    decreases endpoints.len(),
{
    if endpoints.len() == 0 {
        assert(undo(setup_ops(endpoints)) =~= Seq::<HostOpView>::empty());
    } else {
        lemma_teardown_is_undo(endpoints.drop_last());
        lemma_undo_concat(setup_ops(endpoints.drop_last()), attach_ops(endpoints.last()));
    }
}

/// Setup followed by removal leaves the host as it was, in the model of
/// the host: if every step of attaching the endpoints was carried out, the
/// steps of detaching them, last endpoint first, can all be carried out
/// and restore the interfaces on the host and in the namespace, the open
/// queues, the released drivers and the hypervisor's slots.
pub proof fn lemma_teardown_restores_host(endpoints: Seq<EndpointView>, h: HostState)
    requires
        all_take_effect(setup_ops(endpoints), h),
    ensures
        all_take_effect(teardown_ops(endpoints), run(setup_ops(endpoints), h)),
        run(teardown_ops(endpoints), run(setup_ops(endpoints), h)) == h,
{
    lemma_teardown_is_undo(endpoints);
    lemma_undo_restores(setup_ops(endpoints), h);
}

/// What is saved depends on the state and the endpoints alone: as long as
/// neither changes, saving again yields the same snapshots.
pub proof fn lemma_save_is_repeatable(a: NetworkView, b: NetworkView)
    requires
        a.state == b.state,
        a.endpoints == b.endpoints,
    ensures
        save_spec(a) == save_spec(b),
{
}

/// Whether a persisted state, found at position `slot` of a snapshot, is
/// one that an endpoint at that slot can have.
pub open spec fn state_wf(state: EndpointStateView, slot: int) -> bool {
    &&& state.index == slot
    &&& (state.host_name is Some) == needs_pair(state.kind)
    &&& (state.peer_name is Some) == (state.kind == EndpointKind::Veth)
    &&& state.peer_name is Some ==> state.peer_name != state.host_name
}

/// The first of `infos` that is named `name`.
pub open spec fn find_info(infos: Seq<NetworkInfoView>, name: Seq<char>) -> Option<NetworkInfoView>
    decreases infos.len(),
{
    if infos.len() == 0 {
        None
    } else {
        match find_info(infos.drop_last(), name) {
            Some(info) => Some(info),
            None => if infos.last().name == name {
                Some(infos.last())
            } else {
                None
            },
        }
    }
}

/// Whether the persisted state at `slot` can be restored: it is one that
/// an endpoint can have, no state before it has its name, and the
/// namespace holds an interface of that name which it still fits.
pub open spec fn restorable(
    saved: Seq<EndpointStateView>,
    slot: int,
    infos: Seq<NetworkInfoView>,
) -> bool {
    &&& state_wf(saved[slot], slot)
    &&& forall|j: int| 0 <= j < slot ==> saved[j].name != saved[slot].name
    &&& find_info(infos, saved[slot].name) matches Some(info) && state_matches(saved[slot], info)
}

/// The endpoint that a persisted state stands for. Its identity is the
/// persisted one; its addresses are those of the live interface, its
/// routes and neighbours those that the namespace has for it now.
pub open spec fn rebuilt(
    state: EndpointStateView,
    info: NetworkInfoView,
    routes: Seq<RouteView>,
    neighs: Seq<ARPNeighborView>,
) -> EndpointView {
    EndpointView {
        kind: state.kind,
        name: state.name,
        index: state.index,
        hw_addr: state.hw_addr,
        mtu: state.mtu,
        queues: state.queues,
        addresses: info.addresses,
        pair: if needs_pair(state.kind) {
            Some(
                NetworkPairView {
                    host_name: state.host_name->0,
                    guest_name: state.name,
                    peer_name: state.peer_name,
                    hw_addr: state.hw_addr,
                    host_hw_addr: state.hw_addr.update(0, flip_local_bit(state.hw_addr[0])),
                    mtu: state.mtu,
                    queues: state.queues,
                },
            )
        } else {
            None
        },
        vlan_id: state.vlan_id,
        routes: routes_of(routes, state.name),
        neighs: neighs_of(neighs, state.name),
    }
}

/// The endpoints that the persisted states stand for.
pub open spec fn rebuilt_endpoints(
    saved: Seq<EndpointStateView>,
    infos: Seq<NetworkInfoView>,
    routes: Seq<RouteView>,
    neighs: Seq<ARPNeighborView>,
) -> Seq<EndpointView> {
    Seq::new(
        saved.len(),
        |i: int| rebuilt(saved[i], find_info(infos, saved[i].name)->0, routes, neighs),
    )
}

/// The network that a snapshot is restored to: ready, each endpoint
/// attached, as it was when the snapshot was taken.
pub open spec fn restored(
    config: ConfigView,
    saved: Seq<EndpointStateView>,
    infos: Seq<NetworkInfoView>,
    warnings: Seq<DiscoveryWarningView>,
    routes: Seq<RouteView>,
    neighs: Seq<ARPNeighborView>,
) -> NetworkView {
    let endpoints = rebuilt_endpoints(saved, infos, routes, neighs);
    NetworkView {
        config,
        state: NetworkState::Ready,
        phase: Phase::Idle,
        cursor: 0,
        endpoints,
        status: Seq::new(saved.len(), |i: int| Attachment::Attached),
        routes: unclaimed_routes(routes, endpoint_names(endpoints)),
        neighs: unclaimed_neighs(neighs, endpoint_names(endpoints)),
        warnings,
        error: None,
    }
}

/// A restored network is well formed, and saving it gives the snapshot
/// back that it was restored from.
pub proof fn lemma_restore_then_save(
    config: ConfigView,
    saved: Seq<EndpointStateView>,
    infos: Seq<NetworkInfoView>,
    warnings: Seq<DiscoveryWarningView>,
    routes: Seq<RouteView>,
    neighs: Seq<ARPNeighborView>,
)
    requires
        saved.len() <= usize::MAX,
        forall|slot: int| 0 <= slot < saved.len() ==> restorable(saved, slot, infos),
    ensures
        network_wf(restored(config, saved, infos, warnings, routes, neighs)),
        saved.len() > 0 ==> save_spec(restored(config, saved, infos, warnings, routes, neighs))
            == Some(saved),
{
    let v = restored(config, saved, infos, warnings, routes, neighs);
    assert forall|i: int| 0 <= i < v.endpoints.len() implies endpoint_wf(#[trigger] v.endpoints[i])
        && v.endpoints[i].index == i by {
        assert(restorable(saved, i, infos));
    }
    let names = endpoint_names(v.endpoints);
    assert forall|i: int, j: int| 0 <= i < names.len() && 0 <= j < names.len() && i
        != j implies names[i] != names[j] by {
        if i < j {
            assert(restorable(saved, j, infos));
        } else {
            assert(restorable(saved, i, infos));
        }
    }
    if saved.len() > 0 {
        let snapshots = save_spec(v)->0;
        assert forall|i: int| 0 <= i < saved.len() implies snapshots[i] == saved[i] by {
            assert(restorable(saved, i, infos));
        }
        assert(snapshots =~= saved);
    }
}

/// The generated names of the endpoints, endpoint by endpoint.
pub open spec fn all_generated(endpoints: Seq<EndpointView>) -> Seq<Seq<char>>
    decreases endpoints.len(),
{
    if endpoints.len() == 0 {
        Seq::empty()
    } else {
        all_generated(endpoints.drop_last()) + generated_names(endpoints.last())
    }
}

/// Names stay unique. The names generated for the endpoints' pairs differ
/// from one another and from every name that was in use before, and no two
/// endpoints share the name that the guest sees.
pub proof fn lemma_names_are_unique(
    infos: Seq<NetworkInfoView>,
    taken: Seq<Seq<char>>,
    routes: Seq<RouteView>,
    neighs: Seq<ARPNeighborView>,
)
    requires
        infos.len() <= usize::MAX,
    ensures
        ({
            let built = build_endpoints(infos, taken, routes, neighs);
            &&& built.taken == taken + all_generated(built.endpoints)
            &&& all_generated(built.endpoints).no_duplicates()
            &&& forall|name: Seq<char>|
                all_generated(built.endpoints).contains(name) ==> !taken.contains(name)
            &&& endpoint_names(built.endpoints).no_duplicates()
        }),
    decreases infos.len(),
{
    let built = build_endpoints(infos, taken, routes, neighs);
    lemma_build_wf(infos, taken, routes, neighs);
    if infos.len() == 0 {
        assert(built.taken =~= taken + all_generated(built.endpoints));
    } else {
        let front = infos.drop_last();
        let prev = build_endpoints(front, taken, routes, neighs);
        lemma_names_are_unique(front, taken, routes, neighs);
        if built.endpoints.len() != prev.endpoints.len() {
            let e = built.endpoints.last();
            let before = all_generated(prev.endpoints);
            let added = generated_names(e);
            let all = all_generated(built.endpoints);
            assert(built.endpoints.drop_last() =~= prev.endpoints);
            assert(all == before + added);
            assert(built.taken =~= taken + all);
            crate::pair::lemma_pair_names_fresh(
                infos.last(),
                e.kind == EndpointKind::Veth,
                prev.taken,
            );
            assert forall|k: int| 0 <= k < added.len() implies !prev.taken.contains(
                #[trigger] added[k],
            ) by {}
            assert forall|name: Seq<char>| all.contains(name) implies !taken.contains(name) by {
                let k = choose|k: int| 0 <= k < all.len() && all[k] == name;
                if k < before.len() {
                    assert(before[k] == name);
                    assert(before.contains(name));
                } else {
                    assert(added[k - before.len()] == name);
                    if taken.contains(name) {
                        let i = choose|i: int| 0 <= i < taken.len() && taken[i] == name;
                        assert(prev.taken[i] == name);
                    }
                }
            }
            assert forall|i: int, j: int| 0 <= i < all.len() && 0 <= j < all.len() && i
                != j implies all[i] != all[j] by {
                let low = if i < j {
                    i
                } else {
                    j
                };
                let high = if i < j {
                    j
                } else {
                    i
                };
                if high >= before.len() {
                    assert(added[high - before.len()] == all[high]);
                    if low < before.len() {
                        assert(before[low] == all[low]);
                        assert(prev.taken[taken.len() + low] == all[low]);
                    } else {
                        assert(added[low - before.len()] == all[low]);
                    }
                } else {
                    assert(before[low] == all[low] && before[high] == all[high]);
                }
            }
        }
    }
}

/// Endpoints are attached in discovery order. When the first attach is
/// pending and the driver reports `count` attaches in a row, fewer than
/// there are endpoints, the network waits for the attach of the endpoint
/// at slot `count`, with the ones before it attached and the others not;
/// and on the report of that attach it asks for the next slot, or is ready
/// if there is none.
pub proof fn lemma_attaches_in_discovery_order(v: NetworkView, count: nat)
    requires
        network_wf(v),
        v.phase == Phase::Attaching,
        v.cursor == 0,
        count < v.endpoints.len(),
    ensures
        ({
            let now = run_events(v, Seq::new(count, |i: int| EventView::Attached));
            let step = advance_step(now, EventView::Attached);
            &&& network_wf(now)
            &&& now.state == NetworkState::SettingUp
            &&& now.phase == Phase::Attaching
            &&& now.cursor == count
            &&& now.endpoints == v.endpoints
            &&& if count + 1 < v.endpoints.len() {
                step.action == Ok::<ActionView, NetworkErrorView>(
                    attach_action(v, (count + 1) as usize),
                )
            } else {
                step.action == Ok::<ActionView, NetworkErrorView>(
                    ActionView::Finished { result: Ok(()) },
                ) && step.next.state == NetworkState::Ready
            }
        }),
    decreases count,
{
    let events = Seq::new(count, |i: int| EventView::Attached);
    if count > 0 {
        let fewer = Seq::new((count - 1) as nat, |i: int| EventView::Attached);
        assert(events.drop_last() =~= fewer);
        lemma_attaches_in_discovery_order(v, (count - 1) as nat);
        lemma_attached_keeps_wf(run_events(v, fewer));
    }
}

/// Endpoints are detached in reverse order. When the detach of the
/// endpoint under the cursor is pending and the driver reports on
/// `outcomes.len()` detaches, no more than there are endpoints below the
/// cursor, the network waits for the detach of the endpoint that many
/// slots below; and on the report of that detach it asks for the slot
/// below it, if there is one.
pub proof fn lemma_detaches_in_reverse_order(v: NetworkView, outcomes: Seq<bool>, next: bool)
    requires
        network_wf(v),
        v.phase == Phase::RollingBack || v.phase == Phase::Detaching,
        outcomes.len() <= v.cursor,
    ensures
        ({
            let now = run_events(v, detach_reports(outcomes));
            let step = advance_step(now, detach_report(next));
            &&& network_wf(now)
            &&& now.state == v.state
            &&& now.phase == v.phase
            &&& now.cursor == v.cursor - outcomes.len()
            &&& now.endpoints == v.endpoints
            &&& now.cursor > 0 ==> step.action == Ok::<ActionView, NetworkErrorView>(
                detach_action(v, (now.cursor - 1) as usize),
            )
        }),
    decreases outcomes.len(),
{
    let events = detach_reports(outcomes);
    if outcomes.len() > 0 {
        let fewer = outcomes.drop_last();
        assert(events.drop_last() =~= detach_reports(fewer));
        assert(events.last() == detach_report(outcomes.last()));
        lemma_detaches_in_reverse_order(v, fewer, outcomes.last());
        lemma_detached_keeps_wf(run_events(v, detach_reports(fewer)), outcomes.last());
    }
}

} // verus!
