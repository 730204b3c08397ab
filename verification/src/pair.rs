//! The host-side twin of an interface: its generated names, the hardware
//! addresses of its two sides, and its tolerant teardown.

use crate::discovery::{NetworkInfo, NetworkInfoView};
use crate::hostops::{HostOp, HostOpView};
use crate::naming::{first_free_name, lemma_first_free_is_free, pick_name, MAX_PROBES};
use crate::types::{flip_local_bit, views, HardwareAddr};
use vstd::prelude::*;

verus! {

/// The view of an optional text.
pub open spec fn text_view(o: Option<String>) -> Option<Seq<char>> {
    match o {
        Some(s) => Some(s@),
        None => None,
    }
}

/// A copy of an optional text.
pub fn clone_text(o: &Option<String>) -> (r: Option<String>)
    ensures
        text_view(r) == text_view(*o),
{
    match o {
        Some(s) => Some(s.clone()),
        None => None,
    }
}

/// The prefix of generated host-side names.
pub open spec fn host_prefix() -> Seq<char> {
    "vmtap"@
}

/// The prefix of generated veth peer names.
pub open spec fn peer_prefix() -> Seq<char> {
    "vmpeer"@
}

/// A host-visible device paired with the interface that the guest sees.
#[derive(Debug, PartialEq, Eq)]
pub struct NetworkPair {
    /// Generated name of the device on the host that backs the guest device.
    pub host_name: String,
    /// Name of the interface as the guest sees it.
    pub guest_name: String,
    /// Generated name of the second end, where the host device is a veth.
    pub peer_name: Option<String>,
    /// Hardware address of the guest side.
    pub hw_addr: HardwareAddr,
    /// Hardware address of the host side.
    pub host_hw_addr: HardwareAddr,
    pub mtu: u32,
    pub queues: u32,
}

pub struct NetworkPairView {
    pub host_name: Seq<char>,
    pub guest_name: Seq<char>,
    pub peer_name: Option<Seq<char>>,
    pub hw_addr: Seq<u8>,
    pub host_hw_addr: Seq<u8>,
    pub mtu: u32,
    pub queues: u32,
}

impl View for NetworkPair {
    type V = NetworkPairView;

    open spec fn view(&self) -> NetworkPairView {
        NetworkPairView {
            host_name: self.host_name@,
            guest_name: self.guest_name@,
            peer_name: text_view(self.peer_name),
            hw_addr: self.hw_addr@,
            host_hw_addr: self.host_hw_addr@,
            mtu: self.mtu,
            queues: self.queues,
        }
    }
}

impl Clone for NetworkPair {
    fn clone(&self) -> (r: Self)
        ensures
            r@ == self@,
    {
        NetworkPair {
            host_name: self.host_name.clone(),
            guest_name: self.guest_name.clone(),
            peer_name: clone_text(&self.peer_name),
            hw_addr: self.hw_addr,
            host_hw_addr: self.host_hw_addr,
            mtu: self.mtu,
            queues: self.queues,
        }
    }
}

/// The pair derived for the interface `info` while the names `taken` are in
/// use. The host name is the first free one under the host prefix, counting
/// from the interface's index; the peer name, if one is wanted, is the first
/// free one under the peer prefix, the host name counting as taken. The
/// guest side keeps the interface's name and hardware address; the host side
/// gets that address with its locally-administered bit flipped. There is no
/// pair where no free name was found.
pub open spec fn pair_spec(info: NetworkInfoView, with_peer: bool, taken: Seq<Seq<char>>) -> Option<
    NetworkPairView,
> {
    match first_free_name(host_prefix(), info.index as nat, taken, MAX_PROBES as nat) {
        None => None,
        Some(host_name) => {
            let peer = first_free_name(
                peer_prefix(),
                info.index as nat,
                taken.push(host_name),
                MAX_PROBES as nat,
            );
            if with_peer && peer is None {
                None
            } else {
                Some(
                    NetworkPairView {
                        host_name,
                        guest_name: info.name,
                        peer_name: if with_peer {
                            peer
                        } else {
                            None
                        },
                        hw_addr: info.hw_addr,
                        host_hw_addr: info.hw_addr.update(0, flip_local_bit(info.hw_addr[0])),
                        mtu: info.mtu,
                        queues: info.queues,
                    },
                )
            }
        },
    }
}

/// The names that a pair adds to the ones in use.
pub open spec fn pair_names(pair: NetworkPairView) -> Seq<Seq<char>> {
    match pair.peer_name {
        Some(peer) => seq![pair.host_name, peer],
        None => seq![pair.host_name],
    }
}

/// The steps that delete what is left of a pair, given the names of the
/// interfaces that still exist: none where nothing is left.
pub open spec fn teardown_spec(pair: NetworkPairView, existing: Set<Seq<char>>) -> Seq<HostOpView> {
    match pair.peer_name {
        Some(peer) => if existing.contains(pair.host_name) || existing.contains(peer) {
            seq![HostOpView::DeleteVeth { name: pair.host_name, peer, mtu: pair.mtu }]
        } else {
            Seq::empty()
        },
        None => if existing.contains(pair.host_name) {
            seq![
                HostOpView::DeleteTap { name: pair.host_name, queues: pair.queues, mtu: pair.mtu },
            ]
        } else {
            Seq::empty()
        },
    }
}

/// The interfaces that exist once a pair's teardown has run.
pub open spec fn after_teardown(pair: NetworkPairView, existing: Set<Seq<char>>) -> Set<Seq<char>> {
    match pair.peer_name {
        Some(peer) => existing.remove(pair.host_name).remove(peer),
        None => existing.remove(pair.host_name),
    }
}

/// Whether `name` is among `existing`.
fn exists_in(existing: &Vec<String>, name: &String) -> (r: bool)
    ensures
        r == views(existing@).to_set().contains(name@),
{
    crate::naming::is_taken(existing, name)
}

impl NetworkPair {
    /// Derives the pair for an interface, with names that none of `taken`
    /// collides with.
    pub fn new(info: &NetworkInfo, with_peer: bool, taken: &Vec<String>) -> (r: Option<NetworkPair>)
        ensures
            match r {
                Some(pair) => pair_spec(info@, with_peer, views(taken@)) == Some(pair@),
                None => pair_spec(info@, with_peer, views(taken@)) is None,
            },
    {
        let host_name = match pick_name("vmtap", info.index, taken) {
            Some(name) => name,
            None => {
                return None;
            },
        };
        let peer_name = if with_peer {
            let mut in_use: Vec<String> = taken.clone();
            in_use.push(host_name.clone());
            assert(views(in_use@) =~= views(taken@).push(host_name@));
            match pick_name("vmpeer", info.index, &in_use) {
                Some(name) => Some(name),
                None => {
                    return None;
                },
            }
        } else {
            None
        };
        Some(
            NetworkPair {
                host_name,
                guest_name: info.name.clone(),
                peer_name,
                hw_addr: info.hw_addr,
                host_hw_addr: info.hw_addr.host_side(),
                mtu: info.mtu,
                queues: info.queues,
            },
        )
    }

    /// The steps that delete the pair's interfaces as far as they still
    /// exist. An interface that is gone already needs no step, so tearing a
    /// pair down a second time asks for nothing.
    pub fn teardown(&self, existing: &Vec<String>) -> (r: Vec<HostOp>)
        ensures
            views(r@) == teardown_spec(self@, views(existing@).to_set()),
    {
        let mut r: Vec<HostOp> = Vec::new();
        match &self.peer_name {
            Some(peer) => {
                if exists_in(existing, &self.host_name) || exists_in(existing, peer) {
                    r.push(
                        HostOp::DeleteVeth {
                            name: self.host_name.clone(),
                            peer: peer.clone(),
                            mtu: self.mtu,
                        },
                    );
                }
            },
            None => {
                if exists_in(existing, &self.host_name) {
                    r.push(
                        HostOp::DeleteTap {
                            name: self.host_name.clone(),
                            queues: self.queues,
                            mtu: self.mtu,
                        },
                    );
                }
            },
        }
        assert(views(r@) =~= teardown_spec(self@, views(existing@).to_set()));
        r
    }
}

/// The generated names of a pair collide with none of the names that were
/// in use when it was derived, nor with each other; and the pair has a peer
/// exactly if one was asked for.
pub proof fn lemma_pair_names_fresh(info: NetworkInfoView, with_peer: bool, taken: Seq<Seq<char>>)
    ensures
        pair_spec(info, with_peer, taken) matches Some(pair) ==> {
            &&& !taken.contains(pair.host_name)
            &&& pair.peer_name matches Some(peer) ==> !taken.contains(peer) && peer
                != pair.host_name
            &&& (pair.peer_name is Some) == with_peer
        },
{
    lemma_first_free_is_free(host_prefix(), info.index as nat, taken, MAX_PROBES as nat);
    match first_free_name(host_prefix(), info.index as nat, taken, MAX_PROBES as nat) {
        Some(host_name) => {
            let in_use = taken.push(host_name);
            lemma_first_free_is_free(peer_prefix(), info.index as nat, in_use, MAX_PROBES as nat);
            match first_free_name(peer_prefix(), info.index as nat, in_use, MAX_PROBES as nat) {
                Some(peer) => {
                    assert(in_use[in_use.len() - 1] == host_name);
                    assert forall|i: int| 0 <= i < taken.len() implies taken[i] != peer by {
                        assert(in_use[i] == taken[i]);
                    }
                },
                None => {},
            }
        },
        None => {},
    }
}

/// The two sides of a pair differ in their hardware address.
pub proof fn lemma_pair_sides_differ(info: NetworkInfoView, with_peer: bool, taken: Seq<Seq<char>>)
    requires
        info.hw_addr.len() == 6,
    ensures
        pair_spec(info, with_peer, taken) matches Some(pair) ==> pair.host_hw_addr != pair.hw_addr,
{
    let first: u8 = info.hw_addr[0];
    assert(flip_local_bit(first) != first) by (bit_vector);
    assert(info.hw_addr.update(0, flip_local_bit(first))[0] != info.hw_addr[0]);
}

/// Teardown is idempotent: once its steps have run, it asks for no step.
pub proof fn lemma_teardown_idempotent(pair: NetworkPairView, existing: Set<Seq<char>>)
    ensures
        teardown_spec(pair, after_teardown(pair, existing)) == Seq::<HostOpView>::empty(),
{
}

} // verus!
