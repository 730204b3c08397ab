//! Endpoints: one per interface of the network, of one of six kinds, all
//! offering the same four things: the steps that attach it, the steps that
//! detach it, its description for the guest, and its snapshot.

use crate::discovery::{LinkKind, NetworkInfo, NetworkInfoView, NetworkModel, WarningKind};
use crate::host::{all_take_effect, lemma_undo_restores, run, HostState};
use crate::hostops::{is_hypervisor_op, undo, undo_ops, HostOp, HostOpView};
use crate::pair::{
    clone_text, lemma_pair_names_fresh, pair_spec, text_view, NetworkPair, NetworkPairView,
};
use crate::types::{
    clone_addresses, views, ARPNeighbor, ARPNeighborView, HardwareAddr, IPAddress, IPAddressView,
    Route, RouteView,
};
use vstd::prelude::*;

verus! {

/// The kinds of endpoint.
#[derive(Clone, Copy, Debug, PartialEq, Eq, Structural)]
pub enum EndpointKind {
    /// A physical interface assigned to the guest as it is.
    Physical,
    /// A software interface backed by a generated tap device.
    Tap,
    /// A macvtap bound directly to its parent; it has no pair.
    Macvtap,
    /// An interface backed by a generated veth pair, one end of which is
    /// moved into the namespace.
    Veth,
    /// A VLAN interface, backed like a tap.
    Vlan,
    /// An ipvlan interface, backed like a tap.
    Ipvlan,
}

/// The kind of endpoint for an interface of the given link type and
/// attachment model; none where the two do not go together.
pub open spec fn kind_of(link: LinkKind, model: NetworkModel) -> Option<EndpointKind> {
    match (link, model) {
        (LinkKind::Physical, NetworkModel::Passthrough) => Some(EndpointKind::Physical),
        (LinkKind::Physical, NetworkModel::Macvtap) => Some(EndpointKind::Macvtap),
        (LinkKind::Macvtap, NetworkModel::Macvtap) => Some(EndpointKind::Macvtap),
        (LinkKind::Veth, NetworkModel::TapBacked) => Some(EndpointKind::Veth),
        (LinkKind::Tap, NetworkModel::TapBacked) => Some(EndpointKind::Tap),
        (LinkKind::Vlan, NetworkModel::TapBacked) => Some(EndpointKind::Vlan),
        (LinkKind::Ipvlan, NetworkModel::TapBacked) => Some(EndpointKind::Ipvlan),
        _ => None,
    }
}

/// Whether endpoints of this kind have a host-side pair.
pub open spec fn needs_pair(kind: EndpointKind) -> bool {
    kind == EndpointKind::Tap || kind == EndpointKind::Veth || kind == EndpointKind::Vlan || kind
        == EndpointKind::Ipvlan
}

/// Whether endpoints of this kind have a host-side pair.
pub fn kind_needs_pair(kind: EndpointKind) -> (r: bool)
    ensures
        r == needs_pair(kind),
{
    match kind {
        EndpointKind::Physical => false,
        EndpointKind::Macvtap => false,
        _ => true,
    }
}

/// Picks the kind of endpoint for a link type and attachment model.
pub fn endpoint_kind(link: LinkKind, model: NetworkModel) -> (r: Option<EndpointKind>)
    ensures
        r == kind_of(link, model),
{
    match (link, model) {
        (LinkKind::Physical, NetworkModel::Passthrough) => Some(EndpointKind::Physical),
        (LinkKind::Physical, NetworkModel::Macvtap) => Some(EndpointKind::Macvtap),
        (LinkKind::Macvtap, NetworkModel::Macvtap) => Some(EndpointKind::Macvtap),
        (LinkKind::Veth, NetworkModel::TapBacked) => Some(EndpointKind::Veth),
        (LinkKind::Tap, NetworkModel::TapBacked) => Some(EndpointKind::Tap),
        (LinkKind::Vlan, NetworkModel::TapBacked) => Some(EndpointKind::Vlan),
        (LinkKind::Ipvlan, NetworkModel::TapBacked) => Some(EndpointKind::Ipvlan),
        _ => None,
    }
}

/// One guest-attached interface.
#[derive(Debug, PartialEq, Eq)]
pub struct Endpoint {
    pub kind: EndpointKind,
    /// Name of the interface inside the namespace.
    pub name: String,
    /// The slot under which the hypervisor knows the endpoint's device.
    pub index: usize,
    pub hw_addr: HardwareAddr,
    pub mtu: u32,
    pub queues: u32,
    pub addresses: Vec<IPAddress>,
    /// The host-side twin, for the kinds that have one.
    pub pair: Option<NetworkPair>,
    pub vlan_id: Option<u16>,
    /// The namespace's routes through this interface.
    pub routes: Vec<Route>,
    /// The namespace's neighbours on this interface.
    pub neighs: Vec<ARPNeighbor>,
}

pub struct EndpointView {
    pub kind: EndpointKind,
    pub name: Seq<char>,
    pub index: usize,
    pub hw_addr: Seq<u8>,
    pub mtu: u32,
    pub queues: u32,
    pub addresses: Seq<IPAddressView>,
    pub pair: Option<NetworkPairView>,
    pub vlan_id: Option<u16>,
    pub routes: Seq<RouteView>,
    pub neighs: Seq<ARPNeighborView>,
}

impl View for Endpoint {
    type V = EndpointView;

    open spec fn view(&self) -> EndpointView {
        EndpointView {
            kind: self.kind,
            name: self.name@,
            index: self.index,
            hw_addr: self.hw_addr@,
            mtu: self.mtu,
            queues: self.queues,
            addresses: views(self.addresses@),
            pair: match self.pair {
                Some(p) => Some(p@),
                None => None,
            },
            vlan_id: self.vlan_id,
            routes: views(self.routes@),
            neighs: views(self.neighs@),
        }
    }
}

/// The interface as the guest agent is to configure it.
#[derive(Debug, PartialEq, Eq)]
pub struct Interface {
    pub name: String,
    pub hw_addr: HardwareAddr,
    pub mtu: u64,
    pub queues: u32,
    pub ip_addresses: Vec<IPAddress>,
    pub kind: EndpointKind,
}

pub struct InterfaceView {
    pub name: Seq<char>,
    pub hw_addr: Seq<u8>,
    pub mtu: u64,
    pub queues: u32,
    pub ip_addresses: Seq<IPAddressView>,
    pub kind: EndpointKind,
}

impl View for Interface {
    type V = InterfaceView;

    open spec fn view(&self) -> InterfaceView {
        InterfaceView {
            name: self.name@,
            hw_addr: self.hw_addr@,
            mtu: self.mtu,
            queues: self.queues,
            ip_addresses: views(self.ip_addresses@),
            kind: self.kind,
        }
    }
}

/// What an endpoint tells the guest agent: its interface, and the routes
/// and neighbours that go with it.
#[derive(Debug, PartialEq, Eq)]
pub struct Description {
    pub interface: Interface,
    pub routes: Vec<Route>,
    pub neighs: Vec<ARPNeighbor>,
}

pub struct DescriptionView {
    pub interface: InterfaceView,
    pub routes: Seq<RouteView>,
    pub neighs: Seq<ARPNeighborView>,
}

impl View for Description {
    type V = DescriptionView;

    open spec fn view(&self) -> DescriptionView {
        DescriptionView {
            interface: self.interface@,
            routes: views(self.routes@),
            neighs: views(self.neighs@),
        }
    }
}

/// The identity of an endpoint, as it is persisted: its kind and what is
/// needed to find or recreate it. It holds no live handle.
#[derive(Debug, PartialEq, Eq)]
pub struct EndpointState {
    pub kind: EndpointKind,
    pub name: String,
    pub index: usize,
    pub hw_addr: HardwareAddr,
    pub mtu: u32,
    pub queues: u32,
    pub host_name: Option<String>,
    pub peer_name: Option<String>,
    pub vlan_id: Option<u16>,
}

pub struct EndpointStateView {
    pub kind: EndpointKind,
    pub name: Seq<char>,
    pub index: usize,
    pub hw_addr: Seq<u8>,
    pub mtu: u32,
    pub queues: u32,
    pub host_name: Option<Seq<char>>,
    pub peer_name: Option<Seq<char>>,
    pub vlan_id: Option<u16>,
}

impl View for EndpointState {
    type V = EndpointStateView;

    open spec fn view(&self) -> EndpointStateView {
        EndpointStateView {
            kind: self.kind,
            name: self.name@,
            index: self.index,
            hw_addr: self.hw_addr@,
            mtu: self.mtu,
            queues: self.queues,
            host_name: text_view(self.host_name),
            peer_name: text_view(self.peer_name),
            vlan_id: self.vlan_id,
        }
    }
}

/// The routes among `all` that go through `device`, in their order.
pub open spec fn routes_of(all: Seq<RouteView>, device: Seq<char>) -> Seq<RouteView>
    decreases all.len(),
{
    if all.len() == 0 {
        Seq::empty()
    } else if all.last().device == device {
        routes_of(all.drop_last(), device).push(all.last())
    } else {
        routes_of(all.drop_last(), device)
    }
}

/// The neighbours among `all` that are on `device`, in their order.
pub open spec fn neighs_of(all: Seq<ARPNeighborView>, device: Seq<char>) -> Seq<ARPNeighborView>
    decreases all.len(),
{
    if all.len() == 0 {
        Seq::empty()
    } else if all.last().device == device {
        neighs_of(all.drop_last(), device).push(all.last())
    } else {
        neighs_of(all.drop_last(), device)
    }
}

/// Selects the routes through `device`.
pub fn routes_for(all: &Vec<Route>, device: &String) -> (r: Vec<Route>)
    ensures
        views(r@) == routes_of(views(all@), device@),
{
    let mut r: Vec<Route> = Vec::new();
    let mut i: usize = 0;
    assert(views(all@).take(0) =~= Seq::<RouteView>::empty());
    assert(views(r@) =~= Seq::<RouteView>::empty());
    while i < all.len()
        invariant
            i <= all.len(),
            views(r@) == routes_of(views(all@).take(i as int), device@),
        decreases all.len() - i,
    {
        proof {
            assert(views(all@).take(i + 1).drop_last() =~= views(all@).take(i as int));
            assert(views(all@).take(i + 1).last() == all@[i as int]@);
        }
        if all[i].device == *device {
            let ghost before = views(r@);
            r.push(all[i].clone());
            assert(views(r@) =~= before.push(all@[i as int]@));
        }
        i += 1;
    }
    assert(views(all@).take(all@.len() as int) =~= views(all@));
    r
}

/// Selects the neighbours on `device`.
pub fn neighs_for(all: &Vec<ARPNeighbor>, device: &String) -> (r: Vec<ARPNeighbor>)
    ensures
        views(r@) == neighs_of(views(all@), device@),
{
    let mut r: Vec<ARPNeighbor> = Vec::new();
    let mut i: usize = 0;
    assert(views(all@).take(0) =~= Seq::<ARPNeighborView>::empty());
    assert(views(r@) =~= Seq::<ARPNeighborView>::empty());
    while i < all.len()
        invariant
            i <= all.len(),
            views(r@) == neighs_of(views(all@).take(i as int), device@),
        decreases all.len() - i,
    {
        proof {
            assert(views(all@).take(i + 1).drop_last() =~= views(all@).take(i as int));
            assert(views(all@).take(i + 1).last() == all@[i as int]@);
        }
        if all[i].device == *device {
            let ghost before = views(r@);
            r.push(all[i].clone());
            assert(views(r@) =~= before.push(all@[i as int]@));
        }
        i += 1;
    }
    assert(views(all@).take(all@.len() as int) =~= views(all@));
    r
}

/// A copy of a list of routes.
pub fn clone_routes(v: &Vec<Route>) -> (r: Vec<Route>)
    ensures
        views(r@) == views(v@),
{
    let r = v.clone();
    assert(views(r@) =~= views(v@));
    r
}

/// A copy of a list of neighbours.
pub fn clone_neighs(v: &Vec<ARPNeighbor>) -> (r: Vec<ARPNeighbor>)
    ensures
        views(r@) == views(v@),
{
    let r = v.clone();
    assert(views(r@) =~= views(v@));
    r
}

/// The endpoint built for the interface `info` at slot `index`, while the
/// names `taken` are in use, from the namespace's routes and neighbours.
/// It fails with `NoAttachmentModel` where link type and model do not go
/// together, and with `NameUnavailable` where the kind needs a pair and no
/// free name was found.
pub open spec fn endpoint_spec(
    info: NetworkInfoView,
    index: usize,
    taken: Seq<Seq<char>>,
    routes: Seq<RouteView>,
    neighs: Seq<ARPNeighborView>,
) -> Result<EndpointView, WarningKind> {
    match kind_of(info.kind, info.model) {
        None => Err(WarningKind::NoAttachmentModel),
        Some(kind) => {
            let pair = pair_spec(info, kind == EndpointKind::Veth, taken);
            if needs_pair(kind) && pair is None {
                Err(WarningKind::NameUnavailable)
            } else {
                Ok(
                    EndpointView {
                        kind,
                        name: info.name,
                        index,
                        hw_addr: info.hw_addr,
                        mtu: info.mtu,
                        queues: info.queues,
                        addresses: info.addresses,
                        pair: if needs_pair(kind) {
                            pair
                        } else {
                            None
                        },
                        vlan_id: info.vlan_id,
                        routes: routes_of(routes, info.name),
                        neighs: neighs_of(neighs, info.name),
                    },
                )
            }
        },
    }
}

/// What holds of every endpoint that was built: it has a pair exactly if
/// its kind needs one, the pair has a peer exactly if the kind is veth, the
/// peer's name differs from the host name, and the pair agrees with the
/// endpoint on name, address, MTU and queue count.
pub open spec fn endpoint_wf(e: EndpointView) -> bool {
    &&& needs_pair(e.kind) <==> e.pair is Some
    &&& e.pair matches Some(p) ==> {
        &&& (p.peer_name is Some) <==> e.kind == EndpointKind::Veth
        &&& p.peer_name matches Some(peer) ==> peer != p.host_name
        &&& p.guest_name == e.name
        &&& p.hw_addr == e.hw_addr
        &&& p.mtu == e.mtu
        &&& p.queues == e.queues
    }
}

/// The steps that attach an endpoint. What is done on the host comes
/// first, the registration with the hypervisor last.
pub open spec fn attach_ops(e: EndpointView) -> Seq<HostOpView> {
    let plug = HostOpView::Plug { slot: e.index, queues: e.queues };
    match e.kind {
        EndpointKind::Physical => seq![HostOpView::ReleaseDriver { name: e.name }, plug],
        EndpointKind::Macvtap => seq![
            HostOpView::OpenMacvtap { name: e.name, queues: e.queues },
            plug,
        ],
        EndpointKind::Veth => seq![
            HostOpView::CreateVeth {
                name: e.pair->0.host_name,
                peer: e.pair->0.peer_name->0,
                mtu: e.mtu,
            },
            HostOpView::MoveIntoNamespace { name: e.pair->0.peer_name->0 },
            plug,
        ],
        _ => seq![
            HostOpView::CreateTap { name: e.pair->0.host_name, queues: e.queues, mtu: e.mtu },
            plug,
        ],
    }
}

/// The steps that detach an endpoint: those that revert its attaching, in
/// reverse. The hypervisor's device goes first, what was set up on the host
/// after it.
pub open spec fn detach_ops(e: EndpointView) -> Seq<HostOpView> {
    undo(attach_ops(e))
}

/// The description of an endpoint for the guest.
pub open spec fn description_spec(e: EndpointView) -> DescriptionView {
    DescriptionView {
        interface: InterfaceView {
            name: e.name,
            hw_addr: e.hw_addr,
            mtu: e.mtu as u64,
            queues: e.queues,
            ip_addresses: e.addresses,
            kind: e.kind,
        },
        routes: e.routes,
        neighs: e.neighs,
    }
}

/// The snapshot of an endpoint.
pub open spec fn snapshot_spec(e: EndpointView) -> EndpointStateView {
    EndpointStateView {
        kind: e.kind,
        name: e.name,
        index: e.index,
        hw_addr: e.hw_addr,
        mtu: e.mtu,
        queues: e.queues,
        host_name: match e.pair {
            Some(p) => Some(p.host_name),
            None => None,
        },
        peer_name: match e.pair {
            Some(p) => p.peer_name,
            None => None,
        },
        vlan_id: e.vlan_id,
    }
}

/// Whether a persisted state still fits the interface found in the
/// namespace: same name, same hardware address, same MTU, and a link type
/// and model that give the persisted kind.
pub open spec fn state_matches(state: EndpointStateView, info: NetworkInfoView) -> bool {
    &&& kind_of(info.kind, info.model) == Some(state.kind)
    &&& state.name == info.name
    &&& state.hw_addr == info.hw_addr
    &&& state.mtu == info.mtu
}

impl Endpoint {
    /// Builds the endpoint for a discovered interface.
    pub fn new(
        info: &NetworkInfo,
        index: usize,
        taken: &Vec<String>,
        routes: &Vec<Route>,
        neighs: &Vec<ARPNeighbor>,
    ) -> (r: Result<Endpoint, WarningKind>)
        ensures
            match r {
                Ok(e) => endpoint_spec(
                    info@,
                    index,
                    views(taken@),
                    views(routes@),
                    views(neighs@),
                ) == Ok::<EndpointView, WarningKind>(e@),
                Err(kind) => endpoint_spec(
                    info@,
                    index,
                    views(taken@),
                    views(routes@),
                    views(neighs@),
                ) == Err::<EndpointView, WarningKind>(kind),
            },
    {
        let kind = match endpoint_kind(info.kind, info.model) {
            Some(kind) => kind,
            None => {
                return Err(WarningKind::NoAttachmentModel);
            },
        };
        let pair = match kind {
            EndpointKind::Physical => None,
            EndpointKind::Macvtap => None,
            _ => {
                match NetworkPair::new(info, kind == EndpointKind::Veth, taken) {
                    Some(pair) => Some(pair),
                    None => {
                        return Err(WarningKind::NameUnavailable);
                    },
                }
            },
        };
        Ok(
            Endpoint {
                kind,
                name: info.name.clone(),
                index,
                hw_addr: info.hw_addr,
                mtu: info.mtu,
                queues: info.queues,
                addresses: clone_addresses(&info.addresses),
                pair,
                vlan_id: info.vlan_id,
                routes: routes_for(routes, &info.name),
                neighs: neighs_for(neighs, &info.name),
            },
        )
    }

    /// The steps that attach this endpoint, in the order in which to run
    /// them.
    pub fn attach_plan(&self) -> (r: Vec<HostOp>)
        requires
            endpoint_wf(self@),
        ensures
            views(r@) == attach_ops(self@),
    {
        let mut r: Vec<HostOp> = Vec::new();
        match self.kind {
            EndpointKind::Physical => {
                r.push(HostOp::ReleaseDriver { name: self.name.clone() });
            },
            EndpointKind::Macvtap => {
                r.push(HostOp::OpenMacvtap { name: self.name.clone(), queues: self.queues });
            },
            EndpointKind::Veth => {
                let pair = self.pair.as_ref().unwrap();
                let peer = pair.peer_name.as_ref().unwrap();
                r.push(
                    HostOp::CreateVeth {
                        name: pair.host_name.clone(),
                        peer: peer.clone(),
                        mtu: self.mtu,
                    },
                );
                r.push(HostOp::MoveIntoNamespace { name: peer.clone() });
            },
            _ => {
                let pair = self.pair.as_ref().unwrap();
                r.push(
                    HostOp::CreateTap {
                        name: pair.host_name.clone(),
                        queues: self.queues,
                        mtu: self.mtu,
                    },
                );
            },
        }
        r.push(HostOp::Plug { slot: self.index, queues: self.queues });
        assert(views(r@) =~= attach_ops(self@));
        r
    }

    /// The steps that detach this endpoint, in the order in which to run
    /// them.
    pub fn detach_plan(&self) -> (r: Vec<HostOp>)
        requires
            endpoint_wf(self@),
        ensures
            views(r@) == detach_ops(self@),
    {
        let plan = self.attach_plan();
        let r = undo_ops(&plan, plan.len());
        assert(views(plan@).take(plan@.len() as int) =~= views(plan@));
        r
    }

    /// What the guest agent needs to know of this endpoint.
    pub fn describe(&self) -> (r: Description)
        ensures
            r@ == description_spec(self@),
    {
        Description {
            interface: Interface {
                name: self.name.clone(),
                hw_addr: self.hw_addr,
                mtu: self.mtu as u64,
                queues: self.queues,
                ip_addresses: clone_addresses(&self.addresses),
                kind: self.kind,
            },
            routes: clone_routes(&self.routes),
            neighs: clone_neighs(&self.neighs),
        }
    }

    /// The identity of this endpoint, to be persisted.
    pub fn snapshot(&self) -> (r: EndpointState)
        ensures
            r@ == snapshot_spec(self@),
    {
        let (host_name, peer_name) = match &self.pair {
            Some(pair) => (Some(pair.host_name.clone()), clone_text(&pair.peer_name)),
            None => (None, None),
        };
        EndpointState {
            kind: self.kind,
            name: self.name.clone(),
            index: self.index,
            hw_addr: self.hw_addr,
            mtu: self.mtu,
            queues: self.queues,
            host_name,
            peer_name,
            vlan_id: self.vlan_id,
        }
    }
}

impl EndpointState {
    /// Checks a persisted state against the interface that the namespace
    /// holds now.
    pub fn matches(&self, info: &NetworkInfo) -> (r: bool)
        ensures
            r == state_matches(self@, info@),
    {
        let kind_fits = match endpoint_kind(info.kind, info.model) {
            Some(kind) => kind == self.kind,
            None => false,
        };
        kind_fits && self.name == info.name && self.hw_addr.same(&info.hw_addr) && self.mtu
            == info.mtu
    }
}

/// Every interface that discovery resolves has a kind of endpoint.
pub proof fn lemma_resolved_info_has_kind(info: NetworkInfoView)
    requires
        crate::discovery::info_wf(info),
    ensures
        kind_of(info.kind, info.model) is Some,
{
}

/// Every endpoint that is built is well formed.
pub proof fn lemma_endpoint_wf(
    info: NetworkInfoView,
    index: usize,
    taken: Seq<Seq<char>>,
    routes: Seq<RouteView>,
    neighs: Seq<ARPNeighborView>,
)
    ensures
        endpoint_spec(info, index, taken, routes, neighs) matches Ok(e) ==> endpoint_wf(e)
            && e.index == index,
{
    match kind_of(info.kind, info.model) {
        Some(kind) => {
            lemma_pair_names_fresh(info, kind == EndpointKind::Veth, taken);
        },
        None => {},
    }
}

/// In the steps that attach an endpoint the hypervisor comes last and only
/// there; in the steps that detach it the hypervisor comes first and only
/// there. So the namespace is entered once per plan, and never while the
/// hypervisor is being waited for.
pub proof fn lemma_plans_are_staged(e: EndpointView)
    ensures
        attach_ops(e).len() >= 2,
        attach_ops(e).last() == (HostOpView::Plug { slot: e.index, queues: e.queues }),
        forall|i: int| 0 <= i < attach_ops(e).len() - 1 ==> !is_hypervisor_op(attach_ops(e)[i]),
        detach_ops(e).len() == attach_ops(e).len(),
        detach_ops(e).first() == (HostOpView::Unplug { slot: e.index, queues: e.queues }),
        forall|i: int| 1 <= i < detach_ops(e).len() ==> !is_hypervisor_op(detach_ops(e)[i]),
{
}

/// Detaching an endpoint restores the host on which it was attached, in
/// the model of the host, provided every attaching step was carried out.
pub proof fn lemma_detach_restores_host(e: EndpointView, h: HostState)
    requires
        all_take_effect(attach_ops(e), h),
    ensures
        all_take_effect(detach_ops(e), run(attach_ops(e), h)),
        run(detach_ops(e), run(attach_ops(e), h)) == h,
{
    lemma_undo_restores(attach_ops(e), h);
}

} // verus!
