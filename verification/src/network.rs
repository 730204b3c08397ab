//! The namespace-backed network: the state machine of `model`, in
//! executable form. It decides; a driver performs each action it is handed
//! and reports back what came of it.

use crate::discovery::{
    discover, Discovery, DiscoveryPolicy, DiscoveryWarning, LinkRecord, NetworkInfo,
    NetworkInfoView, PhysicalPolicy, WarningKind,
};
use crate::endpoint::{
    description_spec, endpoint_wf, kind_needs_pair, neighs_for, routes_for,
    snapshot_spec, Endpoint, EndpointKind, EndpointState, Interface, InterfaceView,
};
use crate::pair::NetworkPair;
use crate::hostops::HostOp;
use crate::model::{
    advance_step, attach_failed_step, attached_step, build_endpoints, detached_step,
    discovered_step, endpoint_names, endpoint_neighs, endpoint_routes, failed_endpoints, finish,
    generated_names, initial, interfaces_spec, lemma_advance_keeps_wf, lemma_build_wf,
    lemma_remove_keeps_wf, lemma_setup_keeps_wf, link_names, neighs_spec, network_wf,
    find_info, lemma_restore_then_save, rebuilt, remove_step, restorable, restored, routes_spec,
    save_spec, setup_step, state_wf, unclaimed_neighs, unclaimed_routes, ActionView, Attachment,
    ConfigView, EventView, NetworkErrorView, NetworkState, NetworkView, Phase,
};
use crate::types::{clone_addresses, views, ARPNeighbor, ARPNeighborView, Route, RouteView};
use vstd::prelude::*;

verus! {

/// The options of a namespace-backed network.
#[derive(Debug, PartialEq, Eq)]
pub struct NetworkWithNetNsConfig {
    /// Path of the sandbox's network namespace; empty for a sandbox
    /// without one.
    pub netns_path: String,
    /// Upper bound on the queue count of each interface; 0 for none.
    pub queues: u32,
    /// What to do with physical interfaces.
    pub physical: PhysicalPolicy,
    /// Whether the namespace was created for this sandbox, and goes with
    /// it.
    pub network_created: bool,
}

impl View for NetworkWithNetNsConfig {
    type V = ConfigView;

    open spec fn view(&self) -> ConfigView {
        ConfigView {
            netns_path: self.netns_path@,
            queues: self.queues,
            physical: self.physical,
            network_created: self.network_created,
        }
    }
}

impl Clone for NetworkWithNetNsConfig {
    fn clone(&self) -> (r: Self)
        ensures
            r@ == self@,
    {
        NetworkWithNetNsConfig {
            netns_path: self.netns_path.clone(),
            queues: self.queues,
            physical: self.physical,
            network_created: self.network_created,
        }
    }
}

/// Why an operation of the network failed.
#[derive(Debug, PartialEq, Eq)]
pub enum NetworkError {
    /// The operation is not allowed in the state that the network is in.
    State { state: NetworkState },
    /// The namespace could not be entered.
    Namespace,
    /// The endpoint at this slot could not be attached.
    Attach { endpoint: usize },
    /// The endpoints at these slots could not be detached.
    Detach { endpoints: Vec<usize> },
    /// The persisted state at this slot does not fit what the namespace
    /// holds now.
    Stale { endpoint: usize },
    /// The caller gave the operation up.
    Cancelled,
}

impl View for NetworkError {
    type V = NetworkErrorView;

    open spec fn view(&self) -> NetworkErrorView {
        match *self {
            NetworkError::State { state } => NetworkErrorView::State { state },
            NetworkError::Namespace => NetworkErrorView::Namespace,
            NetworkError::Attach { endpoint } => NetworkErrorView::Attach { endpoint },
            NetworkError::Detach { endpoints } => NetworkErrorView::Detach {
                endpoints: endpoints@,
            },
            NetworkError::Stale { endpoint } => NetworkErrorView::Stale { endpoint },
            NetworkError::Cancelled => NetworkErrorView::Cancelled,
        }
    }
}

impl Clone for NetworkError {
    fn clone(&self) -> (r: Self)
        ensures
            r@ == self@,
    {
        match self {
            NetworkError::State { state } => NetworkError::State { state: *state },
            NetworkError::Namespace => NetworkError::Namespace,
            NetworkError::Attach { endpoint } => NetworkError::Attach { endpoint: *endpoint },
            NetworkError::Detach { endpoints } => {
                let copy = endpoints.clone();
                assert(copy@ =~= endpoints@);
                NetworkError::Detach { endpoints: copy }
            },
            NetworkError::Stale { endpoint } => NetworkError::Stale { endpoint: *endpoint },
            NetworkError::Cancelled => NetworkError::Cancelled,
        }
    }
}

/// What the driver reports to the network.
#[derive(Debug, PartialEq, Eq)]
pub enum Event {
    /// The namespace was entered and read: its links, routes and
    /// neighbours, and the names of the interfaces on the host.
    Discovered {
        links: Vec<LinkRecord>,
        routes: Vec<Route>,
        neighs: Vec<ARPNeighbor>,
        host_links: Vec<String>,
    },
    /// The namespace could not be entered for the pending action.
    NamespaceUnavailable,
    /// The pending attach was carried out.
    Attached,
    /// The pending attach failed, and what it had done was reverted.
    AttachFailed,
    /// The pending detach was carried out.
    Detached,
    /// The pending detach failed.
    DetachFailed,
    /// The caller gave the setup up; the pending action was not performed,
    /// or was reverted.
    Cancelled,
}

impl View for Event {
    type V = EventView;

    open spec fn view(&self) -> EventView {
        match *self {
            Event::Discovered { links, routes, neighs, host_links } => EventView::Discovered {
                links: views(links@),
                routes: views(routes@),
                neighs: views(neighs@),
                host_links: views(host_links@),
            },
            Event::NamespaceUnavailable => EventView::NamespaceUnavailable,
            Event::Attached => EventView::Attached,
            Event::AttachFailed => EventView::AttachFailed,
            Event::Detached => EventView::Detached,
            Event::DetachFailed => EventView::DetachFailed,
            Event::Cancelled => EventView::Cancelled,
        }
    }
}

/// What the network tells the driver to do next.
#[derive(Debug, PartialEq, Eq)]
pub enum Action {
    /// Enter the namespace at this path, read it, and report `Discovered`.
    Discover { netns_path: String },
    /// Run these steps for the endpoint at this slot, and report
    /// `Attached` or, after reverting the steps already run,
    /// `AttachFailed`.
    Attach { endpoint: usize, ops: Vec<HostOp> },
    /// Run these steps for the endpoint at this slot, and report
    /// `Detached` or `DetachFailed`.
    Detach { endpoint: usize, ops: Vec<HostOp> },
    /// Nothing: the operation is over and returns this result.
    Finished { result: Result<(), NetworkError> },
}

/// The view of an operation's result.
pub open spec fn result_view(r: Result<(), NetworkError>) -> Result<(), NetworkErrorView> {
    match r {
        Ok(_) => Ok(()),
        Err(e) => Err(e@),
    }
}

impl View for Action {
    type V = ActionView;

    open spec fn view(&self) -> ActionView {
        match *self {
            Action::Discover { netns_path } => ActionView::Discover { netns_path: netns_path@ },
            Action::Attach { endpoint, ops } => ActionView::Attach { endpoint, ops: views(ops@) },
            Action::Detach { endpoint, ops } => ActionView::Detach { endpoint, ops: views(ops@) },
            Action::Finished { result } => ActionView::Finished { result: result_view(result) },
        }
    }
}

/// The view of what a call of the network returns.
pub open spec fn outcome_view(r: Result<Action, NetworkError>) -> Result<
    ActionView,
    NetworkErrorView,
> {
    match r {
        Ok(action) => Ok(action@),
        Err(e) => Err(e@),
    }
}

/// The view of an optional error.
pub open spec fn error_view(e: Option<NetworkError>) -> Option<NetworkErrorView> {
    match e {
        Some(e) => Some(e@),
        None => None,
    }
}

/// The network of one sandbox, backed by a network namespace.
#[derive(Debug)]
pub struct NetworkWithNetns {
    config: NetworkWithNetNsConfig,
    state: NetworkState,
    phase: Phase,
    cursor: usize,
    endpoints: Vec<Endpoint>,
    status: Vec<Attachment>,
    routes: Vec<Route>,
    neighs: Vec<ARPNeighbor>,
    warnings: Vec<DiscoveryWarning>,
    error: Option<NetworkError>,
}

impl View for NetworkWithNetns {
    type V = NetworkView;

    closed spec fn view(&self) -> NetworkView {
        NetworkView {
            config: self.config@,
            state: self.state,
            phase: self.phase,
            cursor: self.cursor,
            endpoints: views(self.endpoints@),
            status: self.status@,
            routes: views(self.routes@),
            neighs: views(self.neighs@),
            warnings: views(self.warnings@),
            error: error_view(self.error),
        }
    }
}

/// The names in use when the endpoints are built: those on the host and
/// those in the namespace.
fn names_in_use(host_links: Vec<String>, links: &Vec<LinkRecord>) -> (taken: Vec<String>)
    ensures
        views(taken@) == views(host_links@) + link_names(views(links@)),
{
    let mut taken = host_links;
    let ghost start = views(taken@);
    let mut i: usize = 0;
    while i < links.len()
        invariant
            i <= links.len(),
            views(taken@) == start + link_names(views(links@)).take(i as int),
        decreases links.len() - i,
    {
        let ghost before = views(taken@);
        taken.push(links[i].name.clone());
        assert(views(taken@) =~= before.push(links@[i as int].name@));
        assert(link_names(views(links@)).take(i + 1) =~= link_names(views(links@)).take(
            i as int,
        ).push(links@[i as int].name@));
        i += 1;
    }
    assert(link_names(views(links@)).take(links@.len() as int) =~= link_names(views(links@)));
    taken
}

/// Adds the generated names of an endpoint to the names in use.
fn add_generated_names(taken: &mut Vec<String>, e: &Endpoint)
    ensures
        views(final(taken)@) == views(old(taken)@) + generated_names(e@),
{
    let ghost before = views(taken@);
    match &e.pair {
        Some(pair) => {
            taken.push(pair.host_name.clone());
            match &pair.peer_name {
                Some(peer) => {
                    taken.push(peer.clone());
                },
                None => {},
            }
        },
        None => {},
    }
    assert(views(taken@) =~= before + generated_names(e@));
}

/// Builds the endpoints of the discovered interfaces.
fn build(
    infos: &Vec<NetworkInfo>,
    taken: Vec<String>,
    routes: &Vec<Route>,
    neighs: &Vec<ARPNeighbor>,
    warnings: Vec<DiscoveryWarning>,
) -> (r: (Vec<Endpoint>, Vec<DiscoveryWarning>))
    ensures
        views(r.0@) == build_endpoints(
            views(infos@),
            views(taken@),
            views(routes@),
            views(neighs@),
        ).endpoints,
        views(r.1@) == views(warnings@) + build_endpoints(
            views(infos@),
            views(taken@),
            views(routes@),
            views(neighs@),
        ).warnings,
{
    let ghost all = views(infos@);
    let ghost start = views(taken@);
    let ghost noted = views(warnings@);
    let mut taken = taken;
    let mut warnings = warnings;
    let mut endpoints: Vec<Endpoint> = Vec::new();
    let mut k: usize = 0;
    proof {
        let b = build_endpoints(all.take(0), start, views(routes@), views(neighs@));
        assert(views(endpoints@) =~= b.endpoints);
        assert(views(warnings@) =~= noted + b.warnings);
        assert(views(taken@) =~= b.taken);
    }
    while k < infos.len()
        invariant
            k <= infos.len(),
            all == views(infos@),
            ({
                let b = build_endpoints(all.take(k as int), start, views(routes@), views(neighs@));
                &&& views(endpoints@) == b.endpoints
                &&& views(warnings@) == noted + b.warnings
                &&& views(taken@) == b.taken
            }),
        decreases infos.len() - k,
    {
        let ghost prev = build_endpoints(all.take(k as int), start, views(routes@), views(neighs@));
        proof {
            assert(all.take(k + 1).drop_last() =~= all.take(k as int));
            assert(all.take(k + 1).last() == infos@[k as int]@);
        }
        let info = &infos[k];
        let outcome = if claimed(&endpoints, &info.name) {
            Err(WarningKind::DuplicateName)
        } else {
            Endpoint::new(info, endpoints.len(), &taken, routes, neighs)
        };
        match outcome {
            Ok(e) => {
                add_generated_names(&mut taken, &e);
                let ghost ev = e@;
                endpoints.push(e);
                assert(views(endpoints@) =~= prev.endpoints.push(ev));
            },
            Err(kind) => {
                let warning = DiscoveryWarning { index: info.index, name: info.name.clone(), kind };
                let ghost wv = warning@;
                let ghost before = views(warnings@);
                warnings.push(warning);
                assert(views(warnings@) =~= before.push(wv));
                assert(views(warnings@) =~= noted + prev.warnings.push(wv));
            },
        }
        k += 1;
    }
    proof {
        assert(all.take(infos@.len() as int) =~= all);
    }
    (endpoints, warnings)
}

/// Whether one of the endpoints is named `device`.
fn claimed(endpoints: &Vec<Endpoint>, device: &String) -> (r: bool)
    ensures
        r == endpoint_names(views(endpoints@)).contains(device@),
{
    let mut i: usize = 0;
    while i < endpoints.len()
        invariant
            i <= endpoints.len(),
            forall|j: int| 0 <= j < i ==> endpoint_names(views(endpoints@))[j] != device@,
        decreases endpoints.len() - i,
    {
        if endpoints[i].name == *device {
            assert(endpoint_names(views(endpoints@))[i as int] == device@);
            return true;
        }
        i += 1;
    }
    false
}

/// Selects the routes that go through none of the endpoints.
fn routes_outside(all: &Vec<Route>, endpoints: &Vec<Endpoint>) -> (r: Vec<Route>)
    ensures
        views(r@) == unclaimed_routes(views(all@), endpoint_names(views(endpoints@))),
{
    let ghost names = endpoint_names(views(endpoints@));
    let mut r: Vec<Route> = Vec::new();
    let mut i: usize = 0;
    assert(views(r@) =~= unclaimed_routes(views(all@).take(0), names));
    while i < all.len()
        invariant
            i <= all.len(),
            names == endpoint_names(views(endpoints@)),
            views(r@) == unclaimed_routes(views(all@).take(i as int), names),
        decreases all.len() - i,
    {
        proof {
            assert(views(all@).take(i + 1).drop_last() =~= views(all@).take(i as int));
            assert(views(all@).take(i + 1).last() == all@[i as int]@);
        }
        if !claimed(endpoints, &all[i].device) {
            let ghost before = views(r@);
            r.push(all[i].clone());
            assert(views(r@) =~= before.push(all@[i as int]@));
        }
        i += 1;
    }
    assert(views(all@).take(all@.len() as int) =~= views(all@));
    r
}

/// Selects the neighbours that are on none of the endpoints.
fn neighs_outside(all: &Vec<ARPNeighbor>, endpoints: &Vec<Endpoint>) -> (r: Vec<ARPNeighbor>)
    ensures
        views(r@) == unclaimed_neighs(views(all@), endpoint_names(views(endpoints@))),
{
    let ghost names = endpoint_names(views(endpoints@));
    let mut r: Vec<ARPNeighbor> = Vec::new();
    let mut i: usize = 0;
    assert(views(r@) =~= unclaimed_neighs(views(all@).take(0), names));
    while i < all.len()
        invariant
            i <= all.len(),
            names == endpoint_names(views(endpoints@)),
            views(r@) == unclaimed_neighs(views(all@).take(i as int), names),
        decreases all.len() - i,
    {
        proof {
            assert(views(all@).take(i + 1).drop_last() =~= views(all@).take(i as int));
            assert(views(all@).take(i + 1).last() == all@[i as int]@);
        }
        if !claimed(endpoints, &all[i].device) {
            let ghost before = views(r@);
            r.push(all[i].clone());
            assert(views(r@) =~= before.push(all@[i as int]@));
        }
        i += 1;
    }
    assert(views(all@).take(all@.len() as int) =~= views(all@));
    r
}

/// A status list of `n` detached endpoints.
fn all_detached(n: usize) -> (r: Vec<Attachment>)
    ensures
        r@ == Seq::new(n as nat, |i: int| Attachment::Detached),
{
    let mut r: Vec<Attachment> = Vec::new();
    let mut i: usize = 0;
    while i < n
        invariant
            i <= n,
            r@.len() == i,
            forall|j: int| 0 <= j < i ==> r@[j] == Attachment::Detached,
        decreases n - i,
    {
        r.push(Attachment::Detached);
        i += 1;
    }
    assert(r@ =~= Seq::new(n as nat, |i: int| Attachment::Detached));
    r
}

/// Lists the endpoints whose detaching failed.
fn failed_list(status: &Vec<Attachment>) -> (r: Vec<usize>)
    ensures
        r@ == failed_endpoints(status@),
{
    let mut r: Vec<usize> = Vec::new();
    let mut i: usize = 0;
    assert(status@.take(0) =~= Seq::<Attachment>::empty());
    while i < status.len()
        invariant
            i <= status.len(),
            r@ == failed_endpoints(status@.take(i as int)),
        decreases status.len() - i,
    {
        proof {
            assert(status@.take(i + 1).drop_last() =~= status@.take(i as int));
            assert(status@.take(i + 1).last() == status@[i as int]);
        }
        if status[i] == Attachment::DetachFailed {
            r.push(i);
        }
        i += 1;
    }
    assert(status@.take(status@.len() as int) =~= status@);
    r
}

impl NetworkWithNetns {
    /// A network for `config`, on which nothing was done yet.
    pub fn new(config: NetworkWithNetNsConfig) -> (r: NetworkWithNetns)
        ensures
            r@ == initial(config@),
            network_wf(r@),
    {
        let r = NetworkWithNetns {
            config,
            state: NetworkState::Created,
            phase: Phase::Idle,
            cursor: 0,
            endpoints: Vec::new(),
            status: Vec::new(),
            routes: Vec::new(),
            neighs: Vec::new(),
            warnings: Vec::new(),
            error: None,
        };
        proof {
            assert(r@.endpoints =~= initial(config@).endpoints);
            assert(r@.status =~= initial(config@).status);
            assert(r@.routes =~= initial(config@).routes);
            assert(r@.neighs =~= initial(config@).neighs);
            assert(r@.warnings =~= initial(config@).warnings);
        }
        r
    }

    /// The state that the network is in.
    pub fn state(&self) -> (r: NetworkState)
        ensures
            r == self@.state,
    {
        self.state
    }

    /// What the network waits for.
    pub fn phase(&self) -> (r: Phase)
        ensures
            r == self@.phase,
    {
        self.phase
    }

    /// The options that the network was created with.
    pub fn config(&self) -> (r: &NetworkWithNetNsConfig)
        ensures
            r@ == self@.config,
    {
        &self.config
    }

    /// The number of endpoints.
    pub fn endpoint_count(&self) -> (r: usize)
        ensures
            r == self@.endpoints.len(),
    {
        self.endpoints.len()
    }

    /// Whether the device of the endpoint at `slot` is attached; nothing
    /// where there is no such endpoint.
    pub fn attachment(&self, slot: usize) -> (r: Option<Attachment>)
        ensures
            r == if slot < self@.status.len() {
                Some(self@.status[slot as int])
            } else {
                None
            },
    {
        if slot < self.status.len() {
            Some(self.status[slot])
        } else {
            None
        }
    }

    /// The warnings recorded for the interfaces that were skipped.
    pub fn warnings(&self) -> (r: Vec<DiscoveryWarning>)
        ensures
            views(r@) == self@.warnings,
    {
        let mut r: Vec<DiscoveryWarning> = Vec::new();
        let mut i: usize = 0;
        while i < self.warnings.len()
            invariant
                i <= self.warnings.len(),
                r@.len() == i,
                forall|j: int| 0 <= j < i ==> r@[j]@ == self.warnings@[j]@,
            decreases self.warnings.len() - i,
        {
            let w = &self.warnings[i];
            r.push(DiscoveryWarning { index: w.index, name: w.name.clone(), kind: w.kind });
            i += 1;
        }
        assert(views(r@) =~= views(self.warnings@));
        r
    }

    /// The error that the network failed with, if it has failed.
    pub fn error(&self) -> (r: Option<NetworkError>)
        ensures
            error_view(r) == self@.error,
    {
        match &self.error {
            Some(e) => Some(e.clone()),
            None => None,
        }
    }

    /// Ends the operation under way.
    fn conclude(&mut self, state: NetworkState, result: Result<(), NetworkError>) -> (r: Action)
        ensures
            final(self)@ == finish(old(self)@, state, result_view(result)).next,
            Ok::<ActionView, NetworkErrorView>(r@) == finish(
                old(self)@,
                state,
                result_view(result),
            ).action,
    {
        self.state = state;
        self.phase = Phase::Idle;
        match &result {
            Ok(_) => {},
            Err(e) => {
                self.error = Some(e.clone());
            },
        }
        Action::Finished { result }
    }

    /// The action that attaches the endpoint at `slot`.
    fn attach_action(&self, slot: usize) -> (r: Action)
        requires
            slot < self@.endpoints.len(),
            endpoint_wf(self@.endpoints[slot as int]),
        ensures
            r@ == crate::model::attach_action(self@, slot),
    {
        assert(views(self.endpoints@)[slot as int] == self.endpoints@[slot as int]@);
        Action::Attach { endpoint: slot, ops: self.endpoints[slot].attach_plan() }
    }

    /// The action that detaches the endpoint at `slot`.
    fn detach_action(&self, slot: usize) -> (r: Action)
        requires
            slot < self@.endpoints.len(),
            endpoint_wf(self@.endpoints[slot as int]),
        ensures
            r@ == crate::model::detach_action(self@, slot),
    {
        assert(views(self.endpoints@)[slot as int] == self.endpoints@[slot as int]@);
        Action::Detach { endpoint: slot, ops: self.endpoints[slot].detach_plan() }
    }

    /// Starts setting the network up. On a network that was just created
    /// this returns the first action to perform; in every other state it
    /// returns a state error and changes nothing.
    pub fn setup(&mut self) -> (r: Result<Action, NetworkError>)
        requires
            network_wf(old(self)@),
        ensures
            final(self)@ == setup_step(old(self)@).next,
            outcome_view(r) == setup_step(old(self)@).action,
            network_wf(final(self)@),
    {
        proof {
            lemma_setup_keeps_wf(self@);
        }
        if self.state != NetworkState::Created {
            return Err(NetworkError::State { state: self.state });
        }
        if self.config.netns_path.as_str().is_empty() {
            return Ok(self.conclude(NetworkState::Ready, Ok(())));
        }
        self.state = NetworkState::SettingUp;
        self.phase = Phase::Discovering;
        Ok(Action::Discover { netns_path: self.config.netns_path.clone() })
    }

    /// Starts removing the network. On a ready network this returns the
    /// first action to perform; in every other state, the one after a
    /// completed removal included, it returns a state error and changes
    /// nothing.
    pub fn remove(&mut self) -> (r: Result<Action, NetworkError>)
        requires
            network_wf(old(self)@),
        ensures
            final(self)@ == remove_step(old(self)@).next,
            outcome_view(r) == remove_step(old(self)@).action,
            network_wf(final(self)@),
    {
        proof {
            lemma_remove_keeps_wf(self@);
        }
        if self.state != NetworkState::Ready {
            return Err(NetworkError::State { state: self.state });
        }
        if self.endpoints.len() == 0 {
            return Ok(self.conclude(NetworkState::Removed, Ok(())));
        }
        let last = self.endpoints.len() - 1;
        let action = self.detach_action(last);
        self.state = NetworkState::TearingDown;
        self.phase = Phase::Detaching;
        self.cursor = last;
        Ok(action)
    }

    /// Takes in the links of the namespace.
    fn discovered(
        &mut self,
        links: Vec<LinkRecord>,
        routes: Vec<Route>,
        neighs: Vec<ARPNeighbor>,
        host_links: Vec<String>,
    ) -> (r: Action)
        requires
            network_wf(old(self)@),
            old(self)@.phase == Phase::Discovering,
        ensures
            final(self)@ == discovered_step(
                old(self)@,
                views(links@),
                views(routes@),
                views(neighs@),
                views(host_links@),
            ).next,
            Ok::<ActionView, NetworkErrorView>(r@) == discovered_step(
                old(self)@,
                views(links@),
                views(routes@),
                views(neighs@),
                views(host_links@),
            ).action,
    {
        let policy = DiscoveryPolicy {
            physical: self.config.physical,
            max_queues: self.config.queues,
        };
        let Discovery { infos, warnings } = discover(&links, &policy);
        let ghost taken0 = views(host_links@) + link_names(views(links@));
        let taken = names_in_use(host_links, &links);
        let (endpoints, warnings) = build(&infos, taken, &routes, &neighs, warnings);
        let resolved = infos.len();
        proof {
            assert(views(infos@).len() == resolved);
            lemma_build_wf(views(infos@), taken0, views(routes@), views(neighs@));
        }
        self.routes = routes_outside(&routes, &endpoints);
        self.neighs = neighs_outside(&neighs, &endpoints);
        self.status = all_detached(endpoints.len());
        self.endpoints = endpoints;
        self.warnings = warnings;
        if self.endpoints.len() == 0 {
            self.conclude(NetworkState::Ready, Ok(()))
        } else {
            let action = self.attach_action(0);
            self.phase = Phase::Attaching;
            self.cursor = 0;
            action
        }
    }

    /// Takes in that the endpoint under the cursor is attached.
    fn attached(&mut self) -> (r: Action)
        requires
            network_wf(old(self)@),
            old(self)@.phase == Phase::Attaching,
        ensures
            final(self)@ == attached_step(old(self)@).next,
            Ok::<ActionView, NetworkErrorView>(r@) == attached_step(old(self)@).action,
    {
        self.status.set(self.cursor, Attachment::Attached);
        if self.cursor + 1 < self.endpoints.len() {
            let next = self.cursor + 1;
            let action = self.attach_action(next);
            self.cursor = next;
            action
        } else {
            self.conclude(NetworkState::Ready, Ok(()))
        }
    }

    /// Takes in that attaching the endpoint under the cursor has failed.
    fn attach_failed(&mut self, error: NetworkError) -> (r: Action)
        requires
            network_wf(old(self)@),
            old(self)@.phase == Phase::Attaching,
        ensures
            final(self)@ == attach_failed_step(old(self)@, error@).next,
            Ok::<ActionView, NetworkErrorView>(r@) == attach_failed_step(old(self)@, error@).action,
    {
        if self.cursor == 0 {
            self.conclude(NetworkState::Failed, Err(error))
        } else {
            let previous = self.cursor - 1;
            let action = self.detach_action(previous);
            self.phase = Phase::RollingBack;
            self.cursor = previous;
            self.error = Some(error);
            action
        }
    }

    /// Takes in how detaching the endpoint under the cursor has ended.
    fn detached(&mut self, detached: bool) -> (r: Action)
        requires
            network_wf(old(self)@),
            old(self)@.phase == Phase::RollingBack || old(self)@.phase == Phase::Detaching,
        ensures
            final(self)@ == detached_step(old(self)@, detached).next,
            Ok::<ActionView, NetworkErrorView>(r@) == detached_step(old(self)@, detached).action,
    {
        let mark = if detached {
            Attachment::Detached
        } else {
            Attachment::DetachFailed
        };
        if self.cursor > 0 {
            let previous = self.cursor - 1;
            let action = self.detach_action(previous);
            self.status.set(self.cursor, mark);
            self.cursor = previous;
            action
        } else {
            self.status.set(self.cursor, mark);
            if self.phase == Phase::RollingBack {
                let error = match &self.error {
                    Some(e) => e.clone(),
                    None => vstd::pervasive::unreached(),
                };
                self.conclude(NetworkState::Failed, Err(error))
            } else {
                let failed = failed_list(&self.status);
                if failed.len() == 0 {
                    self.conclude(NetworkState::Removed, Ok(()))
                } else {
                    let error = NetworkError::Detach { endpoints: failed };
                    self.conclude(NetworkState::Failed, Err(error))
                }
            }
        }
    }

    /// Takes in what the driver reports, and returns the next action to
    /// perform. An event that the network does not wait for is answered
    /// with a state error and changes nothing.
    pub fn advance(&mut self, event: Event) -> (r: Result<Action, NetworkError>)
        requires
            network_wf(old(self)@),
        ensures
            final(self)@ == advance_step(old(self)@, event@).next,
            outcome_view(r) == advance_step(old(self)@, event@).action,
            network_wf(final(self)@),
    {
        match &event {
            Event::Discovered { links, .. } => {
                let reported = links.len();
                assert(views(links@).len() == reported);
            },
            _ => {},
        }
        proof {
            lemma_advance_keeps_wf(self@, event@);
        }
        match self.phase {
            Phase::Discovering => match event {
                Event::Discovered { links, routes, neighs, host_links } => Ok(
                    self.discovered(links, routes, neighs, host_links),
                ),
                Event::NamespaceUnavailable => Ok(
                    self.conclude(NetworkState::Failed, Err(NetworkError::Namespace)),
                ),
                Event::Cancelled => Ok(
                    self.conclude(NetworkState::Failed, Err(NetworkError::Cancelled)),
                ),
                _ => Err(NetworkError::State { state: self.state }),
            },
            Phase::Attaching => match event {
                Event::Attached => Ok(self.attached()),
                Event::AttachFailed => {
                    let error = NetworkError::Attach { endpoint: self.cursor };
                    Ok(self.attach_failed(error))
                },
                Event::NamespaceUnavailable => Ok(self.attach_failed(NetworkError::Namespace)),
                Event::Cancelled => Ok(self.attach_failed(NetworkError::Cancelled)),
                _ => Err(NetworkError::State { state: self.state }),
            },
            Phase::RollingBack => match event {
                Event::Detached => Ok(self.detached(true)),
                Event::DetachFailed => Ok(self.detached(false)),
                Event::NamespaceUnavailable => Ok(self.detached(false)),
                _ => Err(NetworkError::State { state: self.state }),
            },
            Phase::Detaching => match event {
                Event::Detached => Ok(self.detached(true)),
                Event::DetachFailed => Ok(self.detached(false)),
                Event::NamespaceUnavailable => Ok(self.detached(false)),
                _ => Err(NetworkError::State { state: self.state }),
            },
            Phase::Idle => Err(NetworkError::State { state: self.state }),
        }
    }
}

/// Appends copies of the routes `src` to `dst`.
fn append_routes(dst: &mut Vec<Route>, src: &Vec<Route>)
    ensures
        views(final(dst)@) == views(old(dst)@) + views(src@),
{
    let ghost start = views(dst@);
    let mut i: usize = 0;
    assert(views(dst@) =~= start + views(src@).take(0));
    while i < src.len()
        invariant
            i <= src.len(),
            views(dst@) == start + views(src@).take(i as int),
        decreases src.len() - i,
    {
        let ghost before = views(dst@);
        dst.push(src[i].clone());
        assert(views(dst@) =~= before.push(src@[i as int]@));
        assert(views(src@).take(i + 1) =~= views(src@).take(i as int).push(src@[i as int]@));
        i += 1;
    }
    assert(views(src@).take(src@.len() as int) =~= views(src@));
}

/// Appends copies of the neighbours `src` to `dst`.
fn append_neighs(dst: &mut Vec<ARPNeighbor>, src: &Vec<ARPNeighbor>)
    ensures
        views(final(dst)@) == views(old(dst)@) + views(src@),
{
    let ghost start = views(dst@);
    let mut i: usize = 0;
    assert(views(dst@) =~= start + views(src@).take(0));
    while i < src.len()
        invariant
            i <= src.len(),
            views(dst@) == start + views(src@).take(i as int),
        decreases src.len() - i,
    {
        let ghost before = views(dst@);
        dst.push(src[i].clone());
        assert(views(dst@) =~= before.push(src@[i as int]@));
        assert(views(src@).take(i + 1) =~= views(src@).take(i as int).push(src@[i as int]@));
        i += 1;
    }
    assert(views(src@).take(src@.len() as int) =~= views(src@));
}

impl NetworkWithNetns {
    /// The interfaces for the guest, one per endpoint, in discovery order.
    /// A network that is not ready returns a state error.
    pub fn interfaces(&self) -> (r: Result<Vec<Interface>, NetworkError>)
        ensures
            match r {
                Ok(list) => interfaces_spec(self@) == Ok::<Seq<InterfaceView>, NetworkErrorView>(
                    views(list@),
                ),
                Err(e) => interfaces_spec(self@) == Err::<Seq<InterfaceView>, NetworkErrorView>(e@),
            },
    {
        if self.state != NetworkState::Ready {
            return Err(NetworkError::State { state: self.state });
        }
        let mut list: Vec<Interface> = Vec::new();
        let mut i: usize = 0;
        while i < self.endpoints.len()
            invariant
                i <= self.endpoints.len(),
                list@.len() == i,
                forall|j: int|
                    0 <= j < i ==> list@[j]@ == description_spec(self.endpoints@[j]@).interface,
            decreases self.endpoints.len() - i,
        {
            let description = self.endpoints[i].describe();
            list.push(description.interface);
            i += 1;
        }
        assert(views(list@) =~= interfaces_spec(self@)->Ok_0);
        Ok(list)
    }

    /// The routes for the guest: those of each endpoint, in discovery
    /// order, then those of the namespace that go through no endpoint. A
    /// network that is not ready returns a state error.
    pub fn routes(&self) -> (r: Result<Vec<Route>, NetworkError>)
        ensures
            match r {
                Ok(list) => routes_spec(self@) == Ok::<Seq<RouteView>, NetworkErrorView>(
                    views(list@),
                ),
                Err(e) => routes_spec(self@) == Err::<Seq<RouteView>, NetworkErrorView>(e@),
            },
    {
        if self.state != NetworkState::Ready {
            return Err(NetworkError::State { state: self.state });
        }
        let ghost all = views(self.endpoints@);
        let mut list: Vec<Route> = Vec::new();
        let mut i: usize = 0;
        assert(views(list@) =~= endpoint_routes(all.take(0)));
        while i < self.endpoints.len()
            invariant
                i <= self.endpoints.len(),
                all == views(self.endpoints@),
                views(list@) == endpoint_routes(all.take(i as int)),
            decreases self.endpoints.len() - i,
        {
            proof {
                assert(all.take(i + 1).drop_last() =~= all.take(i as int));
                assert(all.take(i + 1).last() == self.endpoints@[i as int]@);
            }
            append_routes(&mut list, &self.endpoints[i].routes);
            i += 1;
        }
        assert(all.take(self.endpoints@.len() as int) =~= all);
        append_routes(&mut list, &self.routes);
        Ok(list)
    }

    /// The neighbours for the guest: those of each endpoint, in discovery
    /// order, then those of the namespace that are on no endpoint. A
    /// network that is not ready returns a state error.
    pub fn neighs(&self) -> (r: Result<Vec<ARPNeighbor>, NetworkError>)
        ensures
            match r {
                Ok(list) => neighs_spec(self@) == Ok::<Seq<ARPNeighborView>, NetworkErrorView>(
                    views(list@),
                ),
                Err(e) => neighs_spec(self@) == Err::<Seq<ARPNeighborView>, NetworkErrorView>(e@),
            },
    {
        if self.state != NetworkState::Ready {
            return Err(NetworkError::State { state: self.state });
        }
        let ghost all = views(self.endpoints@);
        let mut list: Vec<ARPNeighbor> = Vec::new();
        let mut i: usize = 0;
        assert(views(list@) =~= endpoint_neighs(all.take(0)));
        while i < self.endpoints.len()
            invariant
                i <= self.endpoints.len(),
                all == views(self.endpoints@),
                views(list@) == endpoint_neighs(all.take(i as int)),
            decreases self.endpoints.len() - i,
        {
            proof {
                assert(all.take(i + 1).drop_last() =~= all.take(i as int));
                assert(all.take(i + 1).last() == self.endpoints@[i as int]@);
            }
            append_neighs(&mut list, &self.endpoints[i].neighs);
            i += 1;
        }
        assert(all.take(self.endpoints@.len() as int) =~= all);
        append_neighs(&mut list, &self.neighs);
        Ok(list)
    }

    /// The snapshot of every endpoint, in discovery order, for a ready
    /// network that has endpoints; nothing otherwise. The network is left
    /// as it is.
    pub fn save(&self) -> (r: Option<Vec<EndpointState>>)
        ensures
            match r {
                Some(list) => save_spec(self@) == Some(views(list@)),
                None => save_spec(self@) is None,
            },
    {
        if self.state != NetworkState::Ready || self.endpoints.len() == 0 {
            return None;
        }
        let mut list: Vec<EndpointState> = Vec::new();
        let mut i: usize = 0;
        while i < self.endpoints.len()
            invariant
                i <= self.endpoints.len(),
                list@.len() == i,
                forall|j: int| 0 <= j < i ==> list@[j]@ == snapshot_spec(self.endpoints@[j]@),
            decreases self.endpoints.len() - i,
        {
            list.push(self.endpoints[i].snapshot());
            i += 1;
        }
        assert(views(list@) =~= save_spec(self@)->0);
        Some(list)
    }

    /// The endpoint at `slot`; nothing where there is no such endpoint.
    pub fn endpoint(&self, slot: usize) -> (r: Option<&Endpoint>)
        ensures
            match r {
                Some(e) => slot < self@.endpoints.len() && e@ == self@.endpoints[slot as int],
                None => slot >= self@.endpoints.len(),
            },
    {
        if slot < self.endpoints.len() {
            assert(views(self.endpoints@)[slot as int] == self.endpoints@[slot as int]@);
            Some(&self.endpoints[slot])
        } else {
            None
        }
    }
}

/// A match among the first interfaces is the match among all of them.
proof fn lemma_find_in_prefix(infos: Seq<NetworkInfoView>, name: Seq<char>, k: int)
    requires
        0 <= k <= infos.len(),
        find_info(infos.take(k), name) is Some,
    ensures
        find_info(infos, name) == find_info(infos.take(k), name),
    decreases infos.len() - k,
{
    if k < infos.len() {
        assert(infos.take(k + 1).drop_last() =~= infos.take(k));
        lemma_find_in_prefix(infos, name, k + 1);
    } else {
        assert(infos.take(k) =~= infos);
    }
}

/// Finds the first interface named `name`.
fn find(infos: &Vec<NetworkInfo>, name: &String) -> (r: Option<usize>)
    ensures
        match r {
            Some(k) => k < infos@.len() && find_info(views(infos@), name@) == Some(
                infos@[k as int]@,
            ),
            None => find_info(views(infos@), name@) is None,
        },
{
    let ghost all = views(infos@);
    let mut i: usize = 0;
    while i < infos.len()
        invariant
            i <= infos.len(),
            all == views(infos@),
            find_info(all.take(i as int), name@) is None,
        decreases infos.len() - i,
    {
        proof {
            assert(all.take(i + 1).drop_last() =~= all.take(i as int));
            assert(all.take(i + 1).last() == infos@[i as int]@);
        }
        if infos[i].name == *name {
            proof {
                lemma_find_in_prefix(all, name@, i + 1);
            }
            return Some(i);
        }
        i += 1;
    }
    assert(all.take(infos@.len() as int) =~= all);
    None
}

/// Checks that a persisted state is one that an endpoint at `slot` can
/// have.
fn state_is_wf(state: &EndpointState, slot: usize) -> (r: bool)
    ensures
        r == state_wf(state@, slot as int),
{
    let names_differ = match (&state.peer_name, &state.host_name) {
        (Some(peer), Some(host)) => !(*peer == *host),
        _ => true,
    };
    state.index == slot && state.host_name.is_some() == kind_needs_pair(state.kind)
        && state.peer_name.is_some() == (state.kind == EndpointKind::Veth) && names_differ
}

/// Builds the endpoint that a persisted state stands for.
fn rebuild(
    state: &EndpointState,
    info: &NetworkInfo,
    routes: &Vec<Route>,
    neighs: &Vec<ARPNeighbor>,
) -> (e: Endpoint)
    requires
        state_wf(state@, state.index as int),
    ensures
        e@ == rebuilt(state@, info@, views(routes@), views(neighs@)),
{
    let pair = match &state.host_name {
        Some(host_name) => Some(
            NetworkPair {
                host_name: host_name.clone(),
                guest_name: state.name.clone(),
                peer_name: crate::pair::clone_text(&state.peer_name),
                hw_addr: state.hw_addr,
                host_hw_addr: state.hw_addr.host_side(),
                mtu: state.mtu,
                queues: state.queues,
            },
        ),
        None => None,
    };
    Endpoint {
        kind: state.kind,
        name: state.name.clone(),
        index: state.index,
        hw_addr: state.hw_addr,
        mtu: state.mtu,
        queues: state.queues,
        addresses: clone_addresses(&info.addresses),
        pair,
        vlan_id: state.vlan_id,
        routes: routes_for(routes, &state.name),
        neighs: neighs_for(neighs, &state.name),
    }
}

/// A status list of `n` attached endpoints.
fn all_attached(n: usize) -> (r: Vec<Attachment>)
    ensures
        r@ == Seq::new(n as nat, |i: int| Attachment::Attached),
{
    let mut r: Vec<Attachment> = Vec::new();
    let mut i: usize = 0;
    while i < n
        invariant
            i <= n,
            r@.len() == i,
            forall|j: int| 0 <= j < i ==> r@[j] == Attachment::Attached,
        decreases n - i,
    {
        r.push(Attachment::Attached);
        i += 1;
    }
    assert(r@ =~= Seq::new(n as nat, |i: int| Attachment::Attached));
    r
}

impl NetworkWithNetns {
    /// Restores a network from a snapshot, after the process that took it
    /// has gone while the guest kept running. Each persisted state is held
    /// against what was discovered in the namespace now. If every one still
    /// fits, the network is ready, with the endpoints of the snapshot
    /// attached; else the first state that does not fit is named, and there
    /// is no network.
    pub fn restore(
        config: NetworkWithNetNsConfig,
        saved: &Vec<EndpointState>,
        discovery: Discovery,
        routes: &Vec<Route>,
        neighs: &Vec<ARPNeighbor>,
    ) -> (r: Result<NetworkWithNetns, NetworkError>)
        ensures
            match r {
                Ok(net) => {
                    &&& forall|slot: int|
                        0 <= slot < saved@.len() ==> restorable(
                            views(saved@),
                            slot,
                            views(discovery.infos@),
                        )
                    &&& net@ == restored(
                        config@,
                        views(saved@),
                        views(discovery.infos@),
                        views(discovery.warnings@),
                        views(routes@),
                        views(neighs@),
                    )
                    &&& network_wf(net@)
                },
                Err(e) => {
                    &&& e@ matches NetworkErrorView::Stale { endpoint }
                    &&& endpoint < saved@.len()
                    &&& !restorable(views(saved@), endpoint as int, views(discovery.infos@))
                    &&& forall|j: int|
                        0 <= j < endpoint ==> restorable(
                            views(saved@),
                            j,
                            views(discovery.infos@),
                        )
                },
            },
    {
        let ghost states = views(saved@);
        let ghost live = views(discovery.infos@);
        let infos = &discovery.infos;
        let mut endpoints: Vec<Endpoint> = Vec::new();
        let mut i: usize = 0;
        while i < saved.len()
            invariant
                i <= saved.len(),
                states == views(saved@),
                live == views(infos@),
                live == views(discovery.infos@),
                endpoints@.len() == i,
                forall|j: int| 0 <= j < i ==> restorable(states, j, live),
                forall|j: int|
                    0 <= j < i ==> endpoints@[j]@ == rebuilt(
                        states[j],
                        find_info(live, states[j].name)->0,
                        views(routes@),
                        views(neighs@),
                    ),
            decreases saved.len() - i,
        {
            let state = &saved[i];
            assert(states[i as int] == state@);
            let fits = if !state_is_wf(state, i) {
                None
            } else if claimed(&endpoints, &state.name) {
                proof {
                    let names = endpoint_names(views(endpoints@));
                    let j = choose|j: int| 0 <= j < names.len() && names[j] == state.name@;
                    assert(views(endpoints@)[j] == endpoints@[j]@);
                    assert(states[j].name == state.name@);
                }
                None
            } else {
                match find(infos, &state.name) {
                    Some(k) => {
                        if state.matches(&infos[k]) {
                            Some(k)
                        } else {
                            None
                        }
                    },
                    None => None,
                }
            };
            match fits {
                Some(k) => {
                    proof {
                        assert forall|j: int| 0 <= j < i implies states[j].name
                            != state.name@ by {
                            let names = endpoint_names(views(endpoints@));
                            assert(views(endpoints@)[j] == endpoints@[j]@);
                            assert(names[j] == states[j].name);
                        }
                        assert(restorable(states, i as int, live));
                    }
                    endpoints.push(rebuild(state, &infos[k], routes, neighs));
                },
                None => {
                    assert(!restorable(states, i as int, live));
                    return Err(NetworkError::Stale { endpoint: i });
                },
            }
            i += 1;
        }
        let warnings = discovery.warnings;
        let ghost target = restored(
            config@,
            states,
            live,
            views(warnings@),
            views(routes@),
            views(neighs@),
        );
        proof {
            assert(states.len() == saved.len());
            lemma_restore_then_save(
                config@,
                states,
                live,
                views(warnings@),
                views(routes@),
                views(neighs@),
            );
            assert(views(endpoints@) =~= target.endpoints);
        }
        let net = NetworkWithNetns {
            config,
            state: NetworkState::Ready,
            phase: Phase::Idle,
            cursor: 0,
            routes: routes_outside(routes, &endpoints),
            neighs: neighs_outside(neighs, &endpoints),
            status: all_attached(endpoints.len()),
            endpoints,
            warnings,
            error: None,
        };
        proof {
            assert(net@.status =~= target.status);
        }
        Ok(net)
    }
}

} // verus!
