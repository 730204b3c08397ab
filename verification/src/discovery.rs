//! Link discovery: from the raw links of a namespace to the ordered list of
//! interfaces that will become endpoints, each with its attachment model.

use crate::sorting::{
    distinct_indices, lemma_sort_ignores_report_order, lemma_sort_ordered, ordered, select,
    sort_by_index, sorted_positions,
};
use crate::types::{clone_addresses, views, HardwareAddr, IPAddress, IPAddressView};
use vstd::prelude::*;

verus! {

/// The link type that the kernel reports for an interface.
#[derive(Clone, Copy, Debug, PartialEq, Eq, Structural)]
pub enum LinkKind {
    Loopback,
    Physical,
    Veth,
    Tap,
    Macvtap,
    Vlan,
    Ipvlan,
    Unknown,
}

/// The strategy by which an interface is attached to the hypervisor.
#[derive(Clone, Copy, Debug, PartialEq, Eq, Structural)]
pub enum NetworkModel {
    /// The device itself is assigned to the guest.
    Passthrough,
    /// A macvtap bound directly to the interface backs the guest device.
    Macvtap,
    /// A generated host-side device, paired with the interface, backs the
    /// guest device.
    TapBacked,
}

/// What to do with a physical interface that may qualify for more than one
/// attachment model.
#[derive(Clone, Copy, Debug, PartialEq, Eq, Structural)]
pub enum PhysicalPolicy {
    /// Passthrough where the interface allows it, macvtap otherwise.
    PreferPassthrough,
    /// Macvtap where the interface allows it, passthrough otherwise.
    PreferMacvtap,
    /// Physical interfaces are left out of the network.
    Exclude,
}

/// The options that steer discovery.
#[derive(Clone, Copy, Debug, PartialEq, Eq, Structural)]
pub struct DiscoveryPolicy {
    pub physical: PhysicalPolicy,
    /// Upper bound on the queue count of any interface; 0 means no bound.
    pub max_queues: u32,
}

/// Why an interface was skipped.
#[derive(Clone, Copy, Debug, PartialEq, Eq, Structural)]
pub enum WarningKind {
    UnknownLinkType,
    MissingHardwareAddr,
    MissingMtu,
    MissingQueues,
    MissingVlanId,
    NoAttachmentModel,
    /// No free name was found for a generated interface.
    NameUnavailable,
    /// An earlier interface has the same name.
    DuplicateName,
}

/// The outcome of resolving one link.
#[derive(Clone, Copy, Debug, PartialEq, Eq, Structural)]
pub enum Resolution {
    /// Not part of the network, by rule: nothing is recorded.
    Excluded,
    /// Left out because an attribute could not be resolved.
    Skipped(WarningKind),
    /// Becomes an interface of the network, attached by the given model.
    Resolved(NetworkModel),
}

/// One link as the namespace reports it; an attribute that could not be read
/// is `None`.
#[derive(Debug, PartialEq, Eq)]
pub struct LinkRecord {
    pub index: u32,
    pub name: String,
    pub kind: LinkKind,
    pub hw_addr: Option<HardwareAddr>,
    pub mtu: Option<u32>,
    pub queues: Option<u32>,
    pub addresses: Vec<IPAddress>,
    pub passthrough_capable: bool,
    pub macvtap_capable: bool,
    pub vlan_id: Option<u16>,
}

pub struct LinkRecordView {
    pub index: u32,
    pub name: Seq<char>,
    pub kind: LinkKind,
    pub hw_addr: Option<Seq<u8>>,
    pub mtu: Option<u32>,
    pub queues: Option<u32>,
    pub addresses: Seq<IPAddressView>,
    pub passthrough_capable: bool,
    pub macvtap_capable: bool,
    pub vlan_id: Option<u16>,
}

impl View for LinkRecord {
    type V = LinkRecordView;

    open spec fn view(&self) -> LinkRecordView {
        LinkRecordView {
            index: self.index,
            name: self.name@,
            kind: self.kind,
            hw_addr: match self.hw_addr {
                Some(a) => Some(a@),
                None => None,
            },
            mtu: self.mtu,
            queues: self.queues,
            addresses: views(self.addresses@),
            passthrough_capable: self.passthrough_capable,
            macvtap_capable: self.macvtap_capable,
            vlan_id: self.vlan_id,
        }
    }
}

/// A resolved interface: every attribute known, the attachment model chosen.
#[derive(Debug, PartialEq, Eq)]
pub struct NetworkInfo {
    pub index: u32,
    pub name: String,
    pub kind: LinkKind,
    pub hw_addr: HardwareAddr,
    pub mtu: u32,
    pub queues: u32,
    pub addresses: Vec<IPAddress>,
    pub model: NetworkModel,
    pub vlan_id: Option<u16>,
}

pub struct NetworkInfoView {
    pub index: u32,
    pub name: Seq<char>,
    pub kind: LinkKind,
    pub hw_addr: Seq<u8>,
    pub mtu: u32,
    pub queues: u32,
    pub addresses: Seq<IPAddressView>,
    pub model: NetworkModel,
    pub vlan_id: Option<u16>,
}

impl View for NetworkInfo {
    type V = NetworkInfoView;

    open spec fn view(&self) -> NetworkInfoView {
        NetworkInfoView {
            index: self.index,
            name: self.name@,
            kind: self.kind,
            hw_addr: self.hw_addr@,
            mtu: self.mtu,
            queues: self.queues,
            addresses: views(self.addresses@),
            model: self.model,
            vlan_id: self.vlan_id,
        }
    }
}

/// The record of an interface that discovery skipped.
#[derive(Debug, PartialEq, Eq)]
pub struct DiscoveryWarning {
    pub index: u32,
    pub name: String,
    pub kind: WarningKind,
}

pub struct DiscoveryWarningView {
    pub index: u32,
    pub name: Seq<char>,
    pub kind: WarningKind,
}

impl View for DiscoveryWarning {
    type V = DiscoveryWarningView;

    open spec fn view(&self) -> DiscoveryWarningView {
        DiscoveryWarningView { index: self.index, name: self.name@, kind: self.kind }
    }
}

/// What discovery yields: the interfaces in attachment order and one warning
/// for each interface it skipped.
#[derive(Debug, PartialEq, Eq)]
pub struct Discovery {
    pub infos: Vec<NetworkInfo>,
    pub warnings: Vec<DiscoveryWarning>,
}

/// The attachment model of a physical interface: the preferred model where
/// the interface is capable of it, the other one where it is capable of that
/// only, none where it is capable of neither or the policy excludes it.
pub open spec fn physical_model(
    policy: PhysicalPolicy,
    passthrough_capable: bool,
    macvtap_capable: bool,
) -> Option<NetworkModel> {
    match policy {
        PhysicalPolicy::PreferPassthrough => if passthrough_capable {
            Some(NetworkModel::Passthrough)
        } else if macvtap_capable {
            Some(NetworkModel::Macvtap)
        } else {
            None
        },
        PhysicalPolicy::PreferMacvtap => if macvtap_capable {
            Some(NetworkModel::Macvtap)
        } else if passthrough_capable {
            Some(NetworkModel::Passthrough)
        } else {
            None
        },
        PhysicalPolicy::Exclude => None,
    }
}

/// The queue count an interface is given: its own, capped by the policy.
pub open spec fn effective_queues(queues: u32, max_queues: u32) -> u32 {
    if max_queues == 0 || queues <= max_queues {
        queues
    } else {
        max_queues
    }
}

/// How one link is resolved. Loopback, and physical links under an excluding
/// policy, are left out silently. A link of unknown type, or one that lacks
/// a hardware address, a positive MTU, a positive queue count, a VLAN id
/// (VLAN links only) or any attachment model (physical links only) is
/// skipped, the first of these reasons being recorded. Of the rest, a
/// physical link takes the model that the policy picks, a macvtap link is
/// attached as macvtap, every other software link is tap-backed.
pub open spec fn resolve_spec(rec: LinkRecordView, policy: DiscoveryPolicy) -> Resolution {
    if rec.kind == LinkKind::Loopback {
        Resolution::Excluded
    } else if rec.kind == LinkKind::Physical && policy.physical == PhysicalPolicy::Exclude {
        Resolution::Excluded
    } else if rec.kind == LinkKind::Unknown {
        Resolution::Skipped(WarningKind::UnknownLinkType)
    } else if rec.hw_addr is None {
        Resolution::Skipped(WarningKind::MissingHardwareAddr)
    } else if rec.mtu is None || rec.mtu == Some(0u32) {
        Resolution::Skipped(WarningKind::MissingMtu)
    } else if rec.queues is None || rec.queues == Some(0u32) {
        Resolution::Skipped(WarningKind::MissingQueues)
    } else if rec.kind == LinkKind::Vlan && rec.vlan_id is None {
        Resolution::Skipped(WarningKind::MissingVlanId)
    } else if rec.kind == LinkKind::Physical {
        match physical_model(policy.physical, rec.passthrough_capable, rec.macvtap_capable) {
            Some(model) => Resolution::Resolved(model),
            None => Resolution::Skipped(WarningKind::NoAttachmentModel),
        }
    } else if rec.kind == LinkKind::Macvtap {
        Resolution::Resolved(NetworkModel::Macvtap)
    } else {
        Resolution::Resolved(NetworkModel::TapBacked)
    }
}

/// The interface that a resolved link becomes.
pub open spec fn info_spec(
    rec: LinkRecordView,
    model: NetworkModel,
    policy: DiscoveryPolicy,
) -> NetworkInfoView {
    NetworkInfoView {
        index: rec.index,
        name: rec.name,
        kind: rec.kind,
        hw_addr: rec.hw_addr->0,
        mtu: rec.mtu->0,
        queues: effective_queues(rec.queues->0, policy.max_queues),
        addresses: rec.addresses,
        model,
        vlan_id: rec.vlan_id,
    }
}

/// The warning recorded for a skipped link.
pub open spec fn warning_spec(rec: LinkRecordView, kind: WarningKind) -> DiscoveryWarningView {
    DiscoveryWarningView { index: rec.index, name: rec.name, kind }
}

/// The interfaces of the links that resolve, in the order of the links.
pub open spec fn infos_of(recs: Seq<LinkRecordView>, policy: DiscoveryPolicy) -> Seq<
    NetworkInfoView,
>
    decreases recs.len(),
{
    if recs.len() == 0 {
        Seq::empty()
    } else {
        let rest = infos_of(recs.drop_last(), policy);
        match resolve_spec(recs.last(), policy) {
            Resolution::Resolved(model) => rest.push(info_spec(recs.last(), model, policy)),
            _ => rest,
        }
    }
}

/// The warnings of the links that are skipped, in the order of the links.
pub open spec fn warnings_of(recs: Seq<LinkRecordView>, policy: DiscoveryPolicy) -> Seq<
    DiscoveryWarningView,
>
    decreases recs.len(),
{
    if recs.len() == 0 {
        Seq::empty()
    } else {
        let rest = warnings_of(recs.drop_last(), policy);
        match resolve_spec(recs.last(), policy) {
            Resolution::Skipped(kind) => rest.push(warning_spec(recs.last(), kind)),
            _ => rest,
        }
    }
}

/// Picks the attachment model of a physical interface.
pub fn choose_physical_model(
    policy: PhysicalPolicy,
    passthrough_capable: bool,
    macvtap_capable: bool,
) -> (r: Option<NetworkModel>)
    ensures
        r == physical_model(policy, passthrough_capable, macvtap_capable),
{
    match policy {
        PhysicalPolicy::PreferPassthrough => {
            if passthrough_capable {
                Some(NetworkModel::Passthrough)
            } else if macvtap_capable {
                Some(NetworkModel::Macvtap)
            } else {
                None
            }
        },
        PhysicalPolicy::PreferMacvtap => {
            if macvtap_capable {
                Some(NetworkModel::Macvtap)
            } else if passthrough_capable {
                Some(NetworkModel::Passthrough)
            } else {
                None
            }
        },
        PhysicalPolicy::Exclude => None,
    }
}

/// Resolves one link.
pub fn resolve(rec: &LinkRecord, policy: &DiscoveryPolicy) -> (r: Resolution)
    ensures
        r == resolve_spec(rec@, *policy),
{
    if rec.kind == LinkKind::Loopback {
        return Resolution::Excluded;
    }
    if rec.kind == LinkKind::Physical && policy.physical == PhysicalPolicy::Exclude {
        return Resolution::Excluded;
    }
    if rec.kind == LinkKind::Unknown {
        return Resolution::Skipped(WarningKind::UnknownLinkType);
    }
    if rec.hw_addr.is_none() {
        return Resolution::Skipped(WarningKind::MissingHardwareAddr);
    }
    match rec.mtu {
        None => {
            return Resolution::Skipped(WarningKind::MissingMtu);
        },
        Some(mtu) => {
            if mtu == 0 {
                return Resolution::Skipped(WarningKind::MissingMtu);
            }
        },
    }
    match rec.queues {
        None => {
            return Resolution::Skipped(WarningKind::MissingQueues);
        },
        Some(queues) => {
            if queues == 0 {
                return Resolution::Skipped(WarningKind::MissingQueues);
            }
        },
    }
    if rec.kind == LinkKind::Vlan && rec.vlan_id.is_none() {
        return Resolution::Skipped(WarningKind::MissingVlanId);
    }
    if rec.kind == LinkKind::Physical {
        return match choose_physical_model(
            policy.physical,
            rec.passthrough_capable,
            rec.macvtap_capable,
        ) {
            Some(model) => Resolution::Resolved(model),
            None => Resolution::Skipped(WarningKind::NoAttachmentModel),
        };
    }
    if rec.kind == LinkKind::Macvtap {
        Resolution::Resolved(NetworkModel::Macvtap)
    } else {
        Resolution::Resolved(NetworkModel::TapBacked)
    }
}

/// What a resolved interface is known to have: a type that can be attached
/// and an attachment model that fits it, a hardware address of six octets, a
/// positive MTU, at least one queue, and a VLAN id if it is a VLAN link.
pub open spec fn info_wf(info: NetworkInfoView) -> bool {
    &&& info.kind != LinkKind::Loopback
    &&& info.kind != LinkKind::Unknown
    &&& info.hw_addr.len() == 6
    &&& info.mtu > 0
    &&& info.queues > 0
    &&& info.kind == LinkKind::Vlan ==> info.vlan_id is Some
    &&& match info.kind {
        LinkKind::Physical => info.model != NetworkModel::TapBacked,
        LinkKind::Macvtap => info.model == NetworkModel::Macvtap,
        _ => info.model == NetworkModel::TapBacked,
    }
}

/// The interfaces that discovery yields for the links `recs`.
pub open spec fn discover_infos(recs: Seq<LinkRecordView>, policy: DiscoveryPolicy) -> Seq<
    NetworkInfoView,
> {
    infos_of(sort_by_index(recs), policy)
}

/// The warnings that discovery records for the links `recs`.
pub open spec fn discover_warnings(recs: Seq<LinkRecordView>, policy: DiscoveryPolicy) -> Seq<
    DiscoveryWarningView,
> {
    warnings_of(sort_by_index(recs), policy)
}

/// Caps a queue count by the policy's bound.
pub fn cap_queues(queues: u32, max_queues: u32) -> (r: u32)
    ensures
        r == effective_queues(queues, max_queues),
{
    if max_queues == 0 || queues <= max_queues {
        queues
    } else {
        max_queues
    }
}

/// Builds the interface of a link that resolved with `model`.
pub(crate) fn make_info(rec: &LinkRecord, model: NetworkModel, policy: &DiscoveryPolicy) -> (info:
    NetworkInfo)
    requires
        resolve_spec(rec@, *policy) == Resolution::Resolved(model),
    ensures
        info@ == info_spec(rec@, model, *policy),
{
    let hw_addr = rec.hw_addr.unwrap();
    let mtu = rec.mtu.unwrap();
    let queues = cap_queues(rec.queues.unwrap(), policy.max_queues);
    NetworkInfo {
        index: rec.index,
        name: rec.name.clone(),
        kind: rec.kind,
        hw_addr,
        mtu,
        queues,
        addresses: clone_addresses(&rec.addresses),
        model,
        vlan_id: rec.vlan_id,
    }
}

/// Discovers the interfaces of a namespace from its raw links. The links
/// are taken by ascending interface index, each is resolved, and the ones
/// that resolve become the interfaces, in that order. A link that is skipped
/// leaves a warning and does not stop the others.
pub fn discover(records: &Vec<LinkRecord>, policy: &DiscoveryPolicy) -> (d: Discovery)
    ensures
        views(d.infos@) == discover_infos(views(records@), *policy),
        views(d.warnings@) == discover_warnings(views(records@), *policy),
{
    let order = sorted_positions(records);
    let ghost sorted = sort_by_index(views(records@));
    let mut infos: Vec<NetworkInfo> = Vec::new();
    let mut warnings: Vec<DiscoveryWarning> = Vec::new();
    let mut k: usize = 0;
    proof {
        assert(views(infos@) =~= infos_of(sorted.take(0), *policy));
        assert(views(warnings@) =~= warnings_of(sorted.take(0), *policy));
    }
    while k < order.len()
        invariant
            k <= order@.len(),
            order@.len() == records@.len(),
            forall|j: int| 0 <= j < order@.len() ==> order@[j] < records@.len(),
            sorted == select(views(records@), order@),
            views(infos@) == infos_of(sorted.take(k as int), *policy),
            views(warnings@) == warnings_of(sorted.take(k as int), *policy),
        decreases order@.len() - k,
    {
        let rec = &records[order[k]];
        proof {
            assert(sorted.take(k + 1).drop_last() =~= sorted.take(k as int));
            assert(sorted.take(k + 1).last() == rec@);
        }
        match resolve(rec, policy) {
            Resolution::Resolved(model) => {
                let info = make_info(rec, model, policy);
                let ghost before = views(infos@);
                infos.push(info);
                assert(views(infos@) =~= before.push(info_spec(rec@, model, *policy)));
            },
            Resolution::Skipped(kind) => {
                let warning = DiscoveryWarning { index: rec.index, name: rec.name.clone(), kind };
                let ghost before = views(warnings@);
                warnings.push(warning);
                assert(views(warnings@) =~= before.push(warning_spec(rec@, kind)));
            },
            Resolution::Excluded => {},
        }
        k += 1;
    }
    proof {
        assert(sorted.take(order@.len() as int) =~= sorted);
    }
    Discovery { infos, warnings }
}

/// Every interface that comes out of resolution is well formed, given that
/// the hardware addresses reported are six octets long.
pub proof fn lemma_infos_well_formed(recs: Seq<LinkRecordView>, policy: DiscoveryPolicy)
    requires
        forall|i: int|
            0 <= i < recs.len() && recs[i].hw_addr is Some ==> (#[trigger] recs[i]).hw_addr->0.len()
                == 6,
    ensures
        forall|i: int|
            0 <= i < infos_of(recs, policy).len() ==> info_wf(
                #[trigger] infos_of(recs, policy)[i],
            ),
    decreases recs.len(),
{
    if recs.len() > 0 {
        let front = recs.drop_last();
        assert forall|i: int| 0 <= i < front.len() && front[i].hw_addr is Some implies (
        #[trigger] front[i]).hw_addr->0.len() == 6 by {
            assert(front[i] == recs[i]);
        }
        lemma_infos_well_formed(front, policy);
        let rest = infos_of(front, policy);
        let last = recs[recs.len() - 1];
        assert(last == recs.last());
        assert forall|i: int| 0 <= i < infos_of(recs, policy).len() implies info_wf(
            #[trigger] infos_of(recs, policy)[i],
        ) by {
            if i < rest.len() {
                assert(infos_of(recs, policy)[i] == rest[i]);
            } else {
                let model = resolve_spec(last, policy)->Resolved_0;
                assert(infos_of(recs, policy)[i] == info_spec(last, model, policy));
                assert(last.hw_addr is Some);
            }
        }
    }
}

/// No index among the interfaces exceeds a bound on the indices of the
/// links, and there are no more interfaces than links.
pub proof fn lemma_infos_bounded(recs: Seq<LinkRecordView>, policy: DiscoveryPolicy, bound: int)
    requires
        forall|i: int| 0 <= i < recs.len() ==> recs[i].index <= bound,
    ensures
        infos_of(recs, policy).len() <= recs.len(),
        forall|i: int|
            0 <= i < infos_of(recs, policy).len() ==> infos_of(recs, policy)[i].index <= bound,
    decreases recs.len(),
{
    if recs.len() > 0 {
        let front = recs.drop_last();
        assert forall|i: int| 0 <= i < front.len() implies front[i].index <= bound by {
            assert(front[i] == recs[i]);
        }
        lemma_infos_bounded(recs.drop_last(), policy, bound);
    }
}

/// Interfaces resolved from links in ascending order of index are in
/// ascending order of index.
pub proof fn lemma_infos_ordered(recs: Seq<LinkRecordView>, policy: DiscoveryPolicy)
    requires
        ordered(recs),
    ensures
        forall|i: int, j: int|
            0 <= i < j < infos_of(recs, policy).len() ==> infos_of(recs, policy)[i].index
                <= infos_of(recs, policy)[j].index,
    decreases recs.len(),
{
    if recs.len() > 0 {
        let front = recs.drop_last();
        assert(ordered(front)) by {
            assert forall|i: int, j: int| 0 <= i < j < front.len() implies front[i].index
                <= front[j].index by {
                assert(front[i] == recs[i] && front[j] == recs[j]);
            }
        }
        lemma_infos_ordered(front, policy);
        assert forall|i: int| 0 <= i < front.len() implies front[i].index <= recs.last().index by {
            assert(front[i] == recs[i]);
        }
        lemma_infos_bounded(front, policy, recs.last().index as int);
    }
}

/// The interfaces that discovery yields come in ascending order of
/// interface index.
pub proof fn lemma_discovery_ordered(recs: Seq<LinkRecordView>, policy: DiscoveryPolicy)
    ensures
        forall|i: int, j: int|
            0 <= i < j < discover_infos(recs, policy).len() ==> discover_infos(
                recs,
                policy,
            )[i].index <= discover_infos(recs, policy)[j].index,
{
    lemma_sort_ordered(recs);
    lemma_infos_ordered(sort_by_index(recs), policy);
}

/// Discovery is reproducible. Two reports of the same links, in whatever
/// order each lists them, yield the same interfaces in the same order and
/// the same warnings, provided no two links share an interface index.
pub proof fn lemma_discovery_reproducible(
    a: Seq<LinkRecordView>,
    b: Seq<LinkRecordView>,
    policy: DiscoveryPolicy,
)
    requires
        distinct_indices(a),
        a.to_multiset() == b.to_multiset(),
    ensures
        discover_infos(a, policy) == discover_infos(b, policy),
        discover_warnings(a, policy) == discover_warnings(b, policy),
{
    lemma_sort_ignores_report_order(a, b);
}

} // verus!
