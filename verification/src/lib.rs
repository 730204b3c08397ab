//! Networking for a sandbox that runs in a virtual machine: the interfaces
//! of a network namespace are discovered, an endpoint is built for each,
//! and the endpoints are attached to and detached from the hypervisor.
//!
//! The library decides and does no I/O. A driver performs each `Action`
//! that a network hands out and reports an `Event` back.

pub mod addrtext;
pub mod batches;
pub mod discovery;
pub mod endpoint;
pub mod host;
pub mod hostlaws;
pub mod hostops;
pub mod model;
pub mod naming;
pub mod netns;
pub mod network;
pub mod pair;
pub mod sorting;
pub mod tables;
pub mod types;

pub use discovery::NetworkInfo;
pub use discovery::NetworkModel;
pub use endpoint::Endpoint;
pub use endpoint::EndpointState;
pub use netns::generate_netns_name;
pub use netns::NetnsGuard;
pub use network::NetworkWithNetNsConfig;
pub use network::NetworkWithNetns;
pub use pair::NetworkPair;

use crate::endpoint::{Interface, InterfaceView};
use crate::model::{
    advance_step, initial, interfaces_spec, neighs_spec, network_wf, remove_step, routes_spec,
    save_spec, setup_step, NetworkErrorView, NetworkView,
};
use crate::network::{outcome_view, Action, Event, NetworkError};
use crate::types::{views, ARPNeighbor, ARPNeighborView, Route, RouteView};
use vstd::prelude::*;

verus! {

/// Which kind of network a sandbox gets.
#[derive(Debug)]
pub enum NetworkConfig {
    NetworkResourceWithNetNs(NetworkWithNetNsConfig),
}

/// What every network offers, whatever backs it.
pub trait Network {
    /// The state of the network, as the state machine sees it.
    spec fn model(&self) -> NetworkView;

    /// Starts setting the network up.
    fn setup(&mut self) -> (r: Result<Action, NetworkError>)
        requires
            network_wf(old(self).model()),
        ensures
            final(self).model() == setup_step(old(self).model()).next,
            outcome_view(r) == setup_step(old(self).model()).action,
            network_wf(final(self).model()),
    ;

    /// The interfaces for the guest.
    fn interfaces(&self) -> (r: Result<Vec<Interface>, NetworkError>)
        ensures
            match r {
                Ok(list) => interfaces_spec(self.model()) == Ok::<
                    Seq<InterfaceView>,
                    NetworkErrorView,
                >(views(list@)),
                Err(e) => interfaces_spec(self.model()) == Err::<
                    Seq<InterfaceView>,
                    NetworkErrorView,
                >(e@),
            },
    ;

    /// The routes for the guest.
    fn routes(&self) -> (r: Result<Vec<Route>, NetworkError>)
        ensures
            match r {
                Ok(list) => routes_spec(self.model()) == Ok::<Seq<RouteView>, NetworkErrorView>(
                    views(list@),
                ),
                Err(e) => routes_spec(self.model()) == Err::<Seq<RouteView>, NetworkErrorView>(e@),
            },
    ;

    /// The neighbours for the guest.
    fn neighs(&self) -> (r: Result<Vec<ARPNeighbor>, NetworkError>)
        ensures
            match r {
                Ok(list) => neighs_spec(self.model()) == Ok::<
                    Seq<ARPNeighborView>,
                    NetworkErrorView,
                >(views(list@)),
                Err(e) => neighs_spec(self.model()) == Err::<
                    Seq<ARPNeighborView>,
                    NetworkErrorView,
                >(e@),
            },
    ;

    /// The snapshots of the endpoints.
    fn save(&self) -> (r: Option<Vec<EndpointState>>)
        ensures
            match r {
                Some(list) => save_spec(self.model()) == Some(views(list@)),
                None => save_spec(self.model()) is None,
            },
    ;

    /// Starts removing the network.
    fn remove(&mut self) -> (r: Result<Action, NetworkError>)
        requires
            network_wf(old(self).model()),
        ensures
            final(self).model() == remove_step(old(self).model()).next,
            outcome_view(r) == remove_step(old(self).model()).action,
            network_wf(final(self).model()),
    ;

    /// Takes in what the driver reports.
    fn advance(&mut self, event: Event) -> (r: Result<Action, NetworkError>)
        requires
            network_wf(old(self).model()),
        ensures
            final(self).model() == advance_step(old(self).model(), event@).next,
            outcome_view(r) == advance_step(old(self).model(), event@).action,
            network_wf(final(self).model()),
    ;
}

impl Network for NetworkWithNetns {
    open spec fn model(&self) -> NetworkView {
        self@
    }

    fn setup(&mut self) -> (r: Result<Action, NetworkError>) {
        NetworkWithNetns::setup(self)
    }

    fn interfaces(&self) -> (r: Result<Vec<Interface>, NetworkError>) {
        NetworkWithNetns::interfaces(self)
    }

    fn routes(&self) -> (r: Result<Vec<Route>, NetworkError>) {
        NetworkWithNetns::routes(self)
    }

    fn neighs(&self) -> (r: Result<Vec<ARPNeighbor>, NetworkError>) {
        NetworkWithNetns::neighs(self)
    }

    fn save(&self) -> (r: Option<Vec<EndpointState>>) {
        NetworkWithNetns::save(self)
    }

    fn remove(&mut self) -> (r: Result<Action, NetworkError>) {
        NetworkWithNetns::remove(self)
    }

    fn advance(&mut self, event: Event) -> (r: Result<Action, NetworkError>) {
        NetworkWithNetns::advance(self, event)
    }
}

/// The network that `config` asks for, on which nothing was done yet.
pub fn new(config: &NetworkConfig) -> (r: NetworkWithNetns)
    ensures
        match *config {
            NetworkConfig::NetworkResourceWithNetNs(c) => r@ == initial(c@),
        },
        network_wf(r@),
{
    match config {
        NetworkConfig::NetworkResourceWithNetNs(c) => NetworkWithNetns::new(c.clone()),
    }
}

} // verus!
