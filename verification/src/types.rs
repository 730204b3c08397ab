//! Plain values shared by every part of the library: addresses and the
//! descriptors handed to the guest agent.

use vstd::prelude::*;

verus! {

/// The views of the elements of a sequence, in order.
pub open spec fn views<T: View>(s: Seq<T>) -> Seq<T::V> {
    Seq::new(s.len(), |i: int| s[i]@)
}

/// Address family of an IP address or route.
#[derive(Clone, Copy, Debug, PartialEq, Eq, Structural)]
pub enum IPFamily {
    V4,
    V6,
}

/// A 48-bit link-layer address.
#[derive(Clone, Copy, Debug, PartialEq, Eq)]
pub struct HardwareAddr {
    pub octets: [u8; 6],
}

impl View for HardwareAddr {
    type V = Seq<u8>;

    open spec fn view(&self) -> Seq<u8> {
        self.octets@
    }
}

/// The first octet of a hardware address with its locally-administered bit
/// flipped.
pub open spec fn flip_local_bit(octet: u8) -> u8 {
    octet ^ 2u8
}

impl HardwareAddr {
    pub fn new(octets: [u8; 6]) -> (r: HardwareAddr)
        ensures
            r@ == octets@,
    {
        HardwareAddr { octets }
    }

    /// Whether two addresses hold the same six octets.
    pub fn same(&self, other: &HardwareAddr) -> (r: bool)
        ensures
            r == (self@ == other@),
    {
        let r = self.octets[0] == other.octets[0] && self.octets[1] == other.octets[1]
            && self.octets[2] == other.octets[2] && self.octets[3] == other.octets[3]
            && self.octets[4] == other.octets[4] && self.octets[5] == other.octets[5];
        proof {
            if r {
                assert(self@ =~= other@);
            }
        }
        r
    }

    /// The address given to the host side of a pair whose guest side carries
    /// `self`: the same address with the locally-administered bit of its
    /// first octet flipped, so the two sides differ in exactly that bit.
    pub fn host_side(&self) -> (r: HardwareAddr)
        ensures
            r@ == self@.update(0, flip_local_bit(self@[0])),
            r@ != self@,
    {
        let mut octets = self.octets;
        let first: u8 = octets[0];
        let flipped: u8 = first ^ 2u8;
        assert(flipped != first) by (bit_vector)
            requires
                flipped == first ^ 2u8,
        ;
        octets[0] = flipped;
        assert(octets@[0] != self.octets@[0]);
        HardwareAddr { octets }
    }
}

/// Flipping the locally-administered bit twice gives the address back: the
/// guest side of a pair is recovered from its host side by the same step.
pub proof fn lemma_host_side_involution(addr: Seq<u8>)
    requires
        addr.len() == 6,
    ensures
        addr.update(0, flip_local_bit(addr[0])).update(
            0,
            flip_local_bit(addr.update(0, flip_local_bit(addr[0]))[0]),
        ) == addr,
{
    let x: u8 = addr[0];
    assert((x ^ 2u8) ^ 2u8 == x) by (bit_vector);
    assert(addr.update(0, flip_local_bit(x)).update(0, flip_local_bit(flip_local_bit(x)))
        =~= addr);
}

/// An address assigned to an interface: family, address and mask as text.
#[derive(Debug, PartialEq, Eq)]
pub struct IPAddress {
    pub family: IPFamily,
    pub address: String,
    pub mask: String,
}

pub struct IPAddressView {
    pub family: IPFamily,
    pub address: Seq<char>,
    pub mask: Seq<char>,
}

impl View for IPAddress {
    type V = IPAddressView;

    open spec fn view(&self) -> IPAddressView {
        IPAddressView { family: self.family, address: self.address@, mask: self.mask@ }
    }
}

impl Clone for IPAddress {
    fn clone(&self) -> (r: Self)
        ensures
            r@ == self@,
    {
        IPAddress { family: self.family, address: self.address.clone(), mask: self.mask.clone() }
    }
}

/// A routing-table entry of the namespace.
#[derive(Debug, PartialEq, Eq)]
pub struct Route {
    pub dest: String,
    pub gateway: String,
    pub device: String,
    pub source: String,
    pub scope: u32,
    pub family: IPFamily,
}

pub struct RouteView {
    pub dest: Seq<char>,
    pub gateway: Seq<char>,
    pub device: Seq<char>,
    pub source: Seq<char>,
    pub scope: u32,
    pub family: IPFamily,
}

impl View for Route {
    type V = RouteView;

    open spec fn view(&self) -> RouteView {
        RouteView {
            dest: self.dest@,
            gateway: self.gateway@,
            device: self.device@,
            source: self.source@,
            scope: self.scope,
            family: self.family,
        }
    }
}

impl Clone for Route {
    fn clone(&self) -> (r: Self)
        ensures
            r@ == self@,
    {
        Route {
            dest: self.dest.clone(),
            gateway: self.gateway.clone(),
            device: self.device.clone(),
            source: self.source.clone(),
            scope: self.scope,
            family: self.family,
        }
    }
}

/// A neighbour-table (ARP) entry of the namespace.
#[derive(Debug, PartialEq, Eq)]
pub struct ARPNeighbor {
    pub to_ip_address: IPAddress,
    pub device: String,
    pub ll_addr: HardwareAddr,
    pub state: i32,
    pub flags: i32,
}

pub struct ARPNeighborView {
    pub to_ip_address: IPAddressView,
    pub device: Seq<char>,
    pub ll_addr: Seq<u8>,
    pub state: i32,
    pub flags: i32,
}

impl View for ARPNeighbor {
    type V = ARPNeighborView;

    open spec fn view(&self) -> ARPNeighborView {
        ARPNeighborView {
            to_ip_address: self.to_ip_address@,
            device: self.device@,
            ll_addr: self.ll_addr@,
            state: self.state,
            flags: self.flags,
        }
    }
}

impl Clone for ARPNeighbor {
    fn clone(&self) -> (r: Self)
        ensures
            r@ == self@,
    {
        ARPNeighbor {
            to_ip_address: self.to_ip_address.clone(),
            device: self.device.clone(),
            ll_addr: self.ll_addr,
            state: self.state,
            flags: self.flags,
        }
    }
}

/// A copy of a list of addresses.
pub fn clone_addresses(v: &Vec<IPAddress>) -> (r: Vec<IPAddress>)
    ensures
        views(r@) == views(v@),
{
    let r = v.clone();
    assert(views(r@) =~= views(v@));
    r
}

} // verus!
