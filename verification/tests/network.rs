use sandbox_network::discovery::{
    discover, DiscoveryPolicy, DiscoveryWarning, LinkKind, LinkRecord, PhysicalPolicy,
    WarningKind,
};
use sandbox_network::endpoint::{EndpointKind, EndpointState};
use sandbox_network::hostops::HostOp;
use sandbox_network::model::{Attachment, NetworkState, Phase};
use sandbox_network::network::{
    Action, Event, NetworkError, NetworkWithNetNsConfig, NetworkWithNetns,
};
use sandbox_network::types::{ARPNeighbor, HardwareAddr, IPAddress, IPFamily, Route};
use sandbox_network::{new, Network, NetworkConfig};
use std::collections::BTreeSet;

fn s(text: &str) -> String {
    String::from(text)
}

fn config(path: &str) -> NetworkWithNetNsConfig {
    NetworkWithNetNsConfig {
        netns_path: s(path),
        queues: 0,
        physical: PhysicalPolicy::PreferPassthrough,
        network_created: true,
    }
}

fn link(index: u32, name: &str, kind: LinkKind, queues: u32, mac_last: u8) -> LinkRecord {
    LinkRecord {
        index,
        name: s(name),
        kind,
        hw_addr: Some(HardwareAddr::new([0xaa, 0xbb, 0xcc, 0x00, 0x00, mac_last])),
        mtu: Some(1500),
        queues: Some(queues),
        addresses: vec![IPAddress {
            family: IPFamily::V4,
            address: format!("10.0.0.{}", index),
            mask: s("24"),
        }],
        passthrough_capable: true,
        macvtap_capable: false,
        vlan_id: None,
    }
}

fn route(dest: &str, device: &str) -> Route {
    Route {
        dest: s(dest),
        gateway: s("10.0.0.254"),
        device: s(device),
        source: s(""),
        scope: 0,
        family: IPFamily::V4,
    }
}

fn neigh(ip: &str, device: &str) -> ARPNeighbor {
    ARPNeighbor {
        to_ip_address: IPAddress { family: IPFamily::V4, address: s(ip), mask: s("") },
        device: s(device),
        ll_addr: HardwareAddr::new([2, 0, 0, 0, 0, 9]),
        state: 2,
        flags: 0,
    }
}

/// What the namespace of the tests holds.
fn namespace() -> Event {
    Event::Discovered {
        links: vec![
            link(3, "tap-ready", LinkKind::Tap, 4, 2),
            link(1, "lo", LinkKind::Loopback, 1, 0),
            link(2, "veth0", LinkKind::Veth, 1, 1),
        ],
        routes: vec![
            route("default", "veth0"),
            route("127.0.0.0/8", "lo"),
            route("10.9.0.0/16", "tap-ready"),
            route("10.8.0.0/16", "veth0"),
        ],
        neighs: vec![neigh("10.0.0.254", "veth0"), neigh("10.9.0.1", "tap-ready")],
        host_links: vec![s("lo"), s("eth0"), s("docker0")],
    }
}

/// A host that carries out the steps it is given and remembers them.
struct Host {
    links: BTreeSet<String>,
    inside: BTreeSet<String>,
    open: BTreeSet<String>,
    released: BTreeSet<String>,
    plugged: BTreeSet<usize>,
    log: Vec<HostOp>,
    attach_fails_at: Option<usize>,
    detach_fails_at: Vec<usize>,
    namespace_fails: bool,
}

fn host() -> Host {
    Host {
        links: ["lo", "eth0", "docker0"].iter().map(|n| s(n)).collect(),
        inside: ["lo", "veth0", "tap-ready"].iter().map(|n| s(n)).collect(),
        open: BTreeSet::new(),
        released: BTreeSet::new(),
        plugged: BTreeSet::new(),
        log: Vec::new(),
        attach_fails_at: None,
        detach_fails_at: Vec::new(),
        namespace_fails: false,
    }
}

fn apply(h: &mut Host, op: &HostOp) {
    h.log.push(op.clone());
    match op {
        HostOp::CreateTap { name, .. } => assert!(h.links.insert(name.clone())),
        HostOp::CreateVeth { name, peer, .. } => {
            assert!(h.links.insert(name.clone()));
            assert!(h.links.insert(peer.clone()));
        },
        HostOp::MoveIntoNamespace { name } => {
            assert!(h.links.remove(name));
            assert!(h.inside.insert(name.clone()));
        },
        HostOp::OpenMacvtap { name, .. } => assert!(h.open.insert(name.clone())),
        HostOp::ReleaseDriver { name } => assert!(h.released.insert(name.clone())),
        HostOp::Plug { slot, .. } => assert!(h.plugged.insert(*slot)),
        HostOp::Unplug { slot, .. } => assert!(h.plugged.remove(slot)),
        HostOp::RestoreDriver { name } => assert!(h.released.remove(name)),
        HostOp::CloseMacvtap { name, .. } => assert!(h.open.remove(name)),
        HostOp::MoveOutOfNamespace { name } => {
            assert!(h.inside.remove(name));
            assert!(h.links.insert(name.clone()));
        },
        HostOp::DeleteVeth { name, peer, .. } => {
            assert!(h.links.remove(name));
            assert!(h.links.remove(peer));
        },
        HostOp::DeleteTap { name, .. } => assert!(h.links.remove(name)),
    }
}

/// Performs actions and reports events until the operation is over.
fn drive(
    net: &mut NetworkWithNetns,
    h: &mut Host,
    first: Result<Action, NetworkError>,
) -> Result<(), NetworkError> {
    let mut action = first?;
    loop {
        let event = match action {
            Action::Discover { netns_path } => {
                assert_eq!(netns_path, "/run/netns/sandbox");
                if h.namespace_fails {
                    Event::NamespaceUnavailable
                } else {
                    namespace()
                }
            },
            Action::Attach { endpoint, ops } => {
                if h.attach_fails_at == Some(endpoint) {
                    Event::AttachFailed
                } else {
                    for op in ops.iter() {
                        apply(h, op);
                    }
                    Event::Attached
                }
            },
            Action::Detach { endpoint, ops } => {
                if h.detach_fails_at.contains(&endpoint) {
                    Event::DetachFailed
                } else {
                    for op in ops.iter() {
                        apply(h, op);
                    }
                    Event::Detached
                }
            },
            Action::Finished { result } => return result,
        };
        action = net.advance(event).unwrap();
    }
}

fn ready_network(h: &mut Host) -> NetworkWithNetns {
    let mut net = NetworkWithNetns::new(config("/run/netns/sandbox"));
    let first = net.setup();
    assert_eq!(drive(&mut net, h, first), Ok(()));
    assert_eq!(net.state(), NetworkState::Ready);
    net
}

#[test]
fn scenario_veth_and_tap_namespace() {
    let mut h = host();
    let before = (h.links.clone(), h.inside.clone());
    let mut net = ready_network(&mut h);
    let interfaces = net.interfaces().unwrap();
    assert_eq!(interfaces.len(), 2);
    assert_eq!(interfaces[0].name, "veth0");
    assert_eq!(interfaces[0].hw_addr, HardwareAddr::new([0xaa, 0xbb, 0xcc, 0x00, 0x00, 0x01]));
    assert_eq!(interfaces[0].hw_addr.to_text(), "aa:bb:cc:00:00:01");
    assert_eq!(interfaces[0].mtu, 1500);
    assert_eq!(interfaces[0].queues, 1);
    assert_eq!(interfaces[0].kind, EndpointKind::Veth);
    assert_eq!(interfaces[1].name, "tap-ready");
    assert_eq!(interfaces[1].mtu, 1500);
    assert_eq!(interfaces[1].queues, 4);
    assert_eq!(interfaces[1].kind, EndpointKind::Tap);
    assert_eq!(
        net.routes().unwrap(),
        vec![
            route("default", "veth0"),
            route("10.8.0.0/16", "veth0"),
            route("10.9.0.0/16", "tap-ready"),
            route("127.0.0.0/8", "lo"),
        ]
    );
    assert_eq!(
        net.neighs().unwrap(),
        vec![neigh("10.0.0.254", "veth0"), neigh("10.9.0.1", "tap-ready")]
    );
    assert!(h.links.contains("vmtap2"));
    assert!(h.inside.contains("vmpeer2"));
    assert!(h.links.contains("vmtap3"));
    h.log.clear();
    let first = net.remove();
    assert_eq!(drive(&mut net, &mut h, first), Ok(()));
    assert_eq!(net.state(), NetworkState::Removed);
    assert_eq!(
        h.log,
        vec![
            HostOp::Unplug { slot: 1, queues: 4 },
            HostOp::DeleteTap { name: s("vmtap3"), queues: 4, mtu: 1500 },
            HostOp::Unplug { slot: 0, queues: 1 },
            HostOp::MoveOutOfNamespace { name: s("vmpeer2") },
            HostOp::DeleteVeth { name: s("vmtap2"), peer: s("vmpeer2"), mtu: 1500 },
        ]
    );
    assert!(h.inside.contains("tap-ready"));
    assert!(h.inside.contains("veth0"));
    assert_eq!((h.links.clone(), h.inside.clone()), before);
}

#[test]
fn passthrough_leaves_the_namespace_device_untouched() {
    let mut net = NetworkWithNetns::new(config("/run/netns/sandbox"));
    net.setup().unwrap();
    let event = Event::Discovered {
        links: vec![link(4, "enp3s0", LinkKind::Physical, 2, 7)],
        routes: Vec::new(),
        neighs: Vec::new(),
        host_links: vec![s("lo")],
    };
    assert_eq!(
        net.advance(event),
        Ok(Action::Attach {
            endpoint: 0,
            ops: vec![
                HostOp::ReleaseDriver { name: s("enp3s0") },
                HostOp::Plug { slot: 0, queues: 2 },
            ],
        })
    );
    assert_eq!(net.advance(Event::Attached), Ok(Action::Finished { result: Ok(()) }));
    assert_eq!(
        net.remove(),
        Ok(Action::Detach {
            endpoint: 0,
            ops: vec![
                HostOp::Unplug { slot: 0, queues: 2 },
                HostOp::RestoreDriver { name: s("enp3s0") },
            ],
        })
    );
    assert_eq!(net.advance(Event::Detached), Ok(Action::Finished { result: Ok(()) }));
    assert_eq!(net.state(), NetworkState::Removed);
}

#[test]
fn setup_on_a_ready_network_is_a_state_error() {
    let mut h = host();
    let mut net = ready_network(&mut h);
    let steps = h.log.len();
    let saved = net.save();
    assert_eq!(net.setup(), Err(NetworkError::State { state: NetworkState::Ready }));
    assert_eq!(net.state(), NetworkState::Ready);
    assert_eq!(net.phase(), Phase::Idle);
    assert_eq!(h.log.len(), steps);
    assert_eq!(net.save(), saved);
    assert_eq!(net.interfaces().unwrap().len(), 2);
}

#[test]
fn setup_is_refused_in_every_state_but_created() {
    let mut net = NetworkWithNetns::new(config("/run/netns/sandbox"));
    assert!(net.setup().is_ok());
    assert_eq!(net.setup(), Err(NetworkError::State { state: NetworkState::SettingUp }));
    assert_eq!(net.advance(Event::NamespaceUnavailable).unwrap(), Action::Finished {
        result: Err(NetworkError::Namespace),
    });
    assert_eq!(net.setup(), Err(NetworkError::State { state: NetworkState::Failed }));
    let mut h = host();
    let mut net = ready_network(&mut h);
    let first = net.remove();
    assert!(matches!(first, Ok(Action::Detach { endpoint: 1, .. })));
    assert_eq!(net.setup(), Err(NetworkError::State { state: NetworkState::TearingDown }));
    assert_eq!(drive(&mut net, &mut h, first), Ok(()));
    assert_eq!(net.setup(), Err(NetworkError::State { state: NetworkState::Removed }));
}

#[test]
fn setup_then_remove_restores_the_host() {
    let mut h = host();
    let before = (
        h.links.clone(),
        h.inside.clone(),
        h.open.clone(),
        h.released.clone(),
        h.plugged.clone(),
    );
    let mut net = ready_network(&mut h);
    assert_ne!(h.links, before.0);
    assert_eq!(h.plugged.len(), 2);
    let first = net.remove();
    assert_eq!(drive(&mut net, &mut h, first), Ok(()));
    assert_eq!((h.links, h.inside, h.open, h.released, h.plugged), before);
    assert_eq!(net.attachment(0), Some(Attachment::Detached));
    assert_eq!(net.attachment(1), Some(Attachment::Detached));
    assert_eq!(net.attachment(2), None);
}

#[test]
fn a_failed_attach_rolls_back_in_reverse_order() {
    let mut h = host();
    h.attach_fails_at = Some(1);
    let before = (h.links.clone(), h.inside.clone(), h.plugged.clone());
    let mut net = NetworkWithNetns::new(config("/run/netns/sandbox"));
    let first = net.setup();
    assert_eq!(drive(&mut net, &mut h, first), Err(NetworkError::Attach { endpoint: 1 }));
    assert_eq!(net.state(), NetworkState::Failed);
    assert_eq!(net.phase(), Phase::Idle);
    assert_eq!(net.error(), Some(NetworkError::Attach { endpoint: 1 }));
    assert_eq!(net.attachment(0), Some(Attachment::Detached));
    assert_eq!(net.attachment(1), Some(Attachment::Detached));
    assert_eq!(
        h.log,
        vec![
            HostOp::CreateVeth { name: s("vmtap2"), peer: s("vmpeer2"), mtu: 1500 },
            HostOp::MoveIntoNamespace { name: s("vmpeer2") },
            HostOp::Plug { slot: 0, queues: 1 },
            HostOp::Unplug { slot: 0, queues: 1 },
            HostOp::MoveOutOfNamespace { name: s("vmpeer2") },
            HostOp::DeleteVeth { name: s("vmtap2"), peer: s("vmpeer2"), mtu: 1500 },
        ]
    );
    assert_eq!((h.links, h.inside, h.plugged), before);
    assert_eq!(net.interfaces(), Err(NetworkError::State { state: NetworkState::Failed }));
    assert_eq!(net.save(), None);
    assert_eq!(net.remove(), Err(NetworkError::State { state: NetworkState::Failed }));
}

#[test]
fn rollback_detaches_every_attached_endpoint_last_first() {
    let mut net = NetworkWithNetns::new(config("/run/netns/sandbox"));
    net.setup().unwrap();
    let links = (1..=4).map(|i| link(i, &format!("tap{}", i), LinkKind::Tap, 1, i as u8)).collect();
    let event =
        Event::Discovered { links, routes: Vec::new(), neighs: Vec::new(), host_links: Vec::new() };
    assert!(matches!(net.advance(event), Ok(Action::Attach { endpoint: 0, .. })));
    assert!(matches!(net.advance(Event::Attached), Ok(Action::Attach { endpoint: 1, .. })));
    assert!(matches!(net.advance(Event::Attached), Ok(Action::Attach { endpoint: 2, .. })));
    assert!(matches!(net.advance(Event::Attached), Ok(Action::Attach { endpoint: 3, .. })));
    assert_eq!(net.attachment(2), Some(Attachment::Attached));
    assert_eq!(net.attachment(3), Some(Attachment::Detached));
    assert!(matches!(net.advance(Event::AttachFailed), Ok(Action::Detach { endpoint: 2, .. })));
    assert_eq!(net.state(), NetworkState::SettingUp);
    assert_eq!(net.phase(), Phase::RollingBack);
    assert!(matches!(net.advance(Event::Detached), Ok(Action::Detach { endpoint: 1, .. })));
    assert!(matches!(net.advance(Event::DetachFailed), Ok(Action::Detach { endpoint: 0, .. })));
    assert_eq!(
        net.advance(Event::Detached),
        Ok(Action::Finished { result: Err(NetworkError::Attach { endpoint: 3 }) })
    );
    assert_eq!(net.state(), NetworkState::Failed);
    assert_eq!(net.attachment(0), Some(Attachment::Detached));
    assert_eq!(net.attachment(1), Some(Attachment::DetachFailed));
    assert_eq!(net.attachment(2), Some(Attachment::Detached));
    assert_eq!(net.attachment(3), Some(Attachment::Detached));
}

#[test]
fn failure_of_the_first_attach_fails_at_once() {
    let mut h = host();
    h.attach_fails_at = Some(0);
    let mut net = NetworkWithNetns::new(config("/run/netns/sandbox"));
    let first = net.setup();
    assert_eq!(drive(&mut net, &mut h, first), Err(NetworkError::Attach { endpoint: 0 }));
    assert_eq!(net.state(), NetworkState::Failed);
    assert!(h.log.is_empty());
}

#[test]
fn a_namespace_that_cannot_be_entered_fails_setup() {
    let mut h = host();
    h.namespace_fails = true;
    let mut net = NetworkWithNetns::new(config("/run/netns/sandbox"));
    let first = net.setup();
    assert_eq!(
        first,
        Ok(Action::Discover { netns_path: s("/run/netns/sandbox") })
    );
    assert_eq!(net.state(), NetworkState::SettingUp);
    assert_eq!(net.phase(), Phase::Discovering);
    assert_eq!(drive(&mut net, &mut h, first), Err(NetworkError::Namespace));
    assert_eq!(net.state(), NetworkState::Failed);
    assert_eq!(net.error(), Some(NetworkError::Namespace));
    assert_eq!(net.endpoint_count(), 0);
}

#[test]
fn losing_the_namespace_during_attach_rolls_back() {
    let mut net = NetworkWithNetns::new(config("/run/netns/sandbox"));
    net.setup().unwrap();
    assert!(matches!(net.advance(namespace()), Ok(Action::Attach { endpoint: 0, .. })));
    assert!(matches!(net.advance(Event::Attached), Ok(Action::Attach { endpoint: 1, .. })));
    assert!(matches!(
        net.advance(Event::NamespaceUnavailable),
        Ok(Action::Detach { endpoint: 0, .. })
    ));
    assert_eq!(
        net.advance(Event::NamespaceUnavailable),
        Ok(Action::Finished { result: Err(NetworkError::Namespace) })
    );
    assert_eq!(net.state(), NetworkState::Failed);
    assert_eq!(net.attachment(0), Some(Attachment::DetachFailed));
}

#[test]
fn save_twice_gives_the_same_snapshots() {
    let mut h = host();
    let net = ready_network(&mut h);
    let first = net.save();
    let second = net.save();
    assert_eq!(first, second);
    let _ = net.interfaces();
    let _ = net.routes();
    assert_eq!(net.save(), first);
    assert_eq!(
        first,
        Some(vec![
            EndpointState {
                kind: EndpointKind::Veth,
                name: s("veth0"),
                index: 0,
                hw_addr: HardwareAddr::new([0xaa, 0xbb, 0xcc, 0, 0, 1]),
                mtu: 1500,
                queues: 1,
                host_name: Some(s("vmtap2")),
                peer_name: Some(s("vmpeer2")),
                vlan_id: None,
            },
            EndpointState {
                kind: EndpointKind::Tap,
                name: s("tap-ready"),
                index: 1,
                hw_addr: HardwareAddr::new([0xaa, 0xbb, 0xcc, 0, 0, 2]),
                mtu: 1500,
                queues: 4,
                host_name: Some(s("vmtap3")),
                peer_name: None,
                vlan_id: None,
            },
        ])
    );
}

#[test]
fn remove_a_second_time_is_a_caller_error() {
    let mut h = host();
    let mut net = ready_network(&mut h);
    let first = net.remove();
    assert_eq!(drive(&mut net, &mut h, first), Ok(()));
    let steps = h.log.len();
    assert_eq!(net.remove(), Err(NetworkError::State { state: NetworkState::Removed }));
    assert_eq!(net.state(), NetworkState::Removed);
    assert_eq!(net.phase(), Phase::Idle);
    assert_eq!(h.log.len(), steps);
    assert_eq!(net.advance(Event::Detached), Err(NetworkError::State {
        state: NetworkState::Removed,
    }));
}

#[test]
fn remove_goes_on_after_a_failed_detach_and_reports_all() {
    let mut net = NetworkWithNetns::new(config("/run/netns/sandbox"));
    net.setup().unwrap();
    let links = (1..=4).map(|i| link(i, &format!("tap{}", i), LinkKind::Tap, 1, i as u8)).collect();
    let event =
        Event::Discovered { links, routes: Vec::new(), neighs: Vec::new(), host_links: Vec::new() };
    net.advance(event).unwrap();
    for _ in 0..3 {
        net.advance(Event::Attached).unwrap();
    }
    assert_eq!(net.advance(Event::Attached), Ok(Action::Finished { result: Ok(()) }));
    assert!(matches!(net.remove(), Ok(Action::Detach { endpoint: 3, .. })));
    assert_eq!(net.state(), NetworkState::TearingDown);
    assert_eq!(net.phase(), Phase::Detaching);
    assert!(matches!(net.advance(Event::DetachFailed), Ok(Action::Detach { endpoint: 2, .. })));
    assert!(matches!(net.advance(Event::Detached), Ok(Action::Detach { endpoint: 1, .. })));
    assert!(matches!(
        net.advance(Event::NamespaceUnavailable),
        Ok(Action::Detach { endpoint: 0, .. })
    ));
    assert_eq!(
        net.advance(Event::Detached),
        Ok(Action::Finished { result: Err(NetworkError::Detach { endpoints: vec![1, 3] }) })
    );
    assert_eq!(net.state(), NetworkState::Failed);
    assert_eq!(net.error(), Some(NetworkError::Detach { endpoints: vec![1, 3] }));
    assert_eq!(net.attachment(0), Some(Attachment::Detached));
    assert_eq!(net.attachment(1), Some(Attachment::DetachFailed));
    assert_eq!(net.attachment(2), Some(Attachment::Detached));
    assert_eq!(net.attachment(3), Some(Attachment::DetachFailed));
}

#[test]
fn a_network_without_a_namespace_is_ready_at_once() {
    let mut net = NetworkWithNetns::new(config(""));
    assert_eq!(net.setup(), Ok(Action::Finished { result: Ok(()) }));
    assert_eq!(net.state(), NetworkState::Ready);
    assert_eq!(net.interfaces(), Ok(Vec::new()));
    assert_eq!(net.routes(), Ok(Vec::new()));
    assert_eq!(net.neighs(), Ok(Vec::new()));
    assert_eq!(net.save(), None);
    assert_eq!(net.remove(), Ok(Action::Finished { result: Ok(()) }));
    assert_eq!(net.state(), NetworkState::Removed);
}

#[test]
fn a_namespace_without_interfaces_gives_an_empty_network() {
    let mut net = NetworkWithNetns::new(config("/run/netns/sandbox"));
    net.setup().unwrap();
    let event = Event::Discovered {
        links: vec![link(1, "lo", LinkKind::Loopback, 1, 0)],
        routes: vec![route("127.0.0.0/8", "lo")],
        neighs: Vec::new(),
        host_links: Vec::new(),
    };
    assert_eq!(net.advance(event), Ok(Action::Finished { result: Ok(()) }));
    assert_eq!(net.state(), NetworkState::Ready);
    assert_eq!(net.save(), None);
    assert_eq!(net.routes(), Ok(vec![route("127.0.0.0/8", "lo")]));
    assert_eq!(net.endpoint_count(), 0);
}

#[test]
fn queries_need_a_ready_network() {
    let mut net = NetworkWithNetns::new(config("/run/netns/sandbox"));
    let created = NetworkError::State { state: NetworkState::Created };
    assert_eq!(net.interfaces(), Err(created.clone()));
    assert_eq!(net.routes(), Err(created.clone()));
    assert_eq!(net.neighs(), Err(created.clone()));
    assert_eq!(net.save(), None);
    assert_eq!(net.remove(), Err(created));
    net.setup().unwrap();
    let setting_up = NetworkError::State { state: NetworkState::SettingUp };
    assert_eq!(net.interfaces(), Err(setting_up.clone()));
    net.advance(namespace()).unwrap();
    assert_eq!(net.routes(), Err(setting_up.clone()));
    assert_eq!(net.neighs(), Err(setting_up.clone()));
    assert_eq!(net.save(), None);
    assert_eq!(net.remove(), Err(setting_up));
}

#[test]
fn an_event_out_of_turn_changes_nothing() {
    let mut net = NetworkWithNetns::new(config("/run/netns/sandbox"));
    let created = NetworkError::State { state: NetworkState::Created };
    assert_eq!(net.advance(Event::Attached), Err(created.clone()));
    assert_eq!(net.advance(namespace()), Err(created));
    assert_eq!(net.state(), NetworkState::Created);
    net.setup().unwrap();
    let setting_up = NetworkError::State { state: NetworkState::SettingUp };
    assert_eq!(net.advance(Event::Attached), Err(setting_up.clone()));
    assert_eq!(net.advance(Event::DetachFailed), Err(setting_up.clone()));
    assert_eq!(net.phase(), Phase::Discovering);
    net.advance(namespace()).unwrap();
    assert_eq!(net.advance(Event::Detached), Err(setting_up.clone()));
    assert_eq!(net.advance(namespace()), Err(setting_up));
    assert_eq!(net.phase(), Phase::Attaching);
    assert_eq!(net.attachment(0), Some(Attachment::Detached));
    assert!(matches!(net.advance(Event::Attached), Ok(Action::Attach { endpoint: 1, .. })));
}

#[test]
fn skipped_interfaces_leave_warnings() {
    let mut net = NetworkWithNetns::new(config("/run/netns/sandbox"));
    net.setup().unwrap();
    let mut broken = link(5, "broken", LinkKind::Veth, 1, 5);
    broken.mtu = None;
    let event = Event::Discovered {
        links: vec![
            link(9, "eth0", LinkKind::Tap, 1, 9),
            broken,
            link(4, "eth0", LinkKind::Veth, 1, 4),
            link(6, "odd", LinkKind::Unknown, 1, 6),
        ],
        routes: Vec::new(),
        neighs: Vec::new(),
        host_links: Vec::new(),
    };
    assert!(matches!(net.advance(event), Ok(Action::Attach { endpoint: 0, .. })));
    assert_eq!(net.endpoint_count(), 1);
    assert_eq!(net.endpoint(0).unwrap().kind, EndpointKind::Veth);
    assert!(net.endpoint(1).is_none());
    assert_eq!(
        net.warnings(),
        vec![
            DiscoveryWarning { index: 5, name: s("broken"), kind: WarningKind::MissingMtu },
            DiscoveryWarning { index: 6, name: s("odd"), kind: WarningKind::UnknownLinkType },
            DiscoveryWarning { index: 9, name: s("eth0"), kind: WarningKind::DuplicateName },
        ]
    );
}

#[test]
fn generated_names_avoid_host_and_namespace_names() {
    let mut net = NetworkWithNetns::new(config("/run/netns/sandbox"));
    net.setup().unwrap();
    let event = Event::Discovered {
        links: vec![
            link(2, "veth0", LinkKind::Veth, 1, 1),
            link(3, "vmpeer2", LinkKind::Tap, 1, 2),
            link(4, "veth1", LinkKind::Veth, 1, 3),
        ],
        routes: Vec::new(),
        neighs: Vec::new(),
        host_links: vec![s("vmtap2"), s("vmtap3")],
    };
    net.advance(event).unwrap();
    let first = net.endpoint(0).unwrap().pair.clone().unwrap();
    assert_eq!(first.host_name, "vmtap4");
    assert_eq!(first.peer_name, Some(s("vmpeer3")));
    let second = net.endpoint(1).unwrap().pair.clone().unwrap();
    assert_eq!(second.host_name, "vmtap5");
    assert_eq!(second.peer_name, None);
    let third = net.endpoint(2).unwrap().pair.clone().unwrap();
    assert_eq!(third.host_name, "vmtap6");
    assert_eq!(third.peer_name, Some(s("vmpeer4")));
}

#[test]
fn the_queue_bound_of_the_config_applies() {
    let mut c = config("/run/netns/sandbox");
    c.queues = 2;
    let mut net = NetworkWithNetns::new(c);
    net.setup().unwrap();
    net.advance(namespace()).unwrap();
    net.advance(Event::Attached).unwrap();
    net.advance(Event::Attached).unwrap();
    let interfaces = net.interfaces().unwrap();
    assert_eq!(interfaces[0].queues, 1);
    assert_eq!(interfaces[1].queues, 2);
    assert_eq!(net.config().queues, 2);
}

#[test]
fn the_physical_policy_of_the_config_applies() {
    let mut c = config("/run/netns/sandbox");
    c.physical = PhysicalPolicy::Exclude;
    let mut net = NetworkWithNetns::new(c);
    net.setup().unwrap();
    let event = Event::Discovered {
        links: vec![link(4, "enp3s0", LinkKind::Physical, 2, 7)],
        routes: Vec::new(),
        neighs: Vec::new(),
        host_links: Vec::new(),
    };
    assert_eq!(net.advance(event), Ok(Action::Finished { result: Ok(()) }));
    assert_eq!(net.endpoint_count(), 0);
    assert!(net.warnings().is_empty());
}

#[test]
fn a_setup_that_is_given_up_rolls_back_first() {
    let mut net = NetworkWithNetns::new(config("/run/netns/sandbox"));
    net.setup().unwrap();
    let links = (1..=3).map(|i| link(i, &format!("tap{}", i), LinkKind::Tap, 1, i as u8)).collect();
    let event =
        Event::Discovered { links, routes: Vec::new(), neighs: Vec::new(), host_links: Vec::new() };
    net.advance(event).unwrap();
    net.advance(Event::Attached).unwrap();
    assert!(matches!(net.advance(Event::Attached), Ok(Action::Attach { endpoint: 2, .. })));
    assert!(matches!(net.advance(Event::Cancelled), Ok(Action::Detach { endpoint: 1, .. })));
    assert_eq!(net.state(), NetworkState::SettingUp);
    assert_eq!(
        net.advance(Event::Cancelled),
        Err(NetworkError::State { state: NetworkState::SettingUp })
    );
    assert_eq!(net.phase(), Phase::RollingBack);
    assert!(matches!(net.advance(Event::Detached), Ok(Action::Detach { endpoint: 0, .. })));
    assert_eq!(
        net.advance(Event::Detached),
        Ok(Action::Finished { result: Err(NetworkError::Cancelled) })
    );
    assert_eq!(net.state(), NetworkState::Failed);
    assert_eq!(net.error(), Some(NetworkError::Cancelled));
    for slot in 0..3 {
        assert_eq!(net.attachment(slot), Some(Attachment::Detached));
    }
}

#[test]
fn a_setup_given_up_before_discovery_fails_at_once() {
    let mut net = NetworkWithNetns::new(config("/run/netns/sandbox"));
    net.setup().unwrap();
    assert_eq!(
        net.advance(Event::Cancelled),
        Ok(Action::Finished { result: Err(NetworkError::Cancelled) })
    );
    assert_eq!(net.state(), NetworkState::Failed);
}

#[test]
fn a_removal_cannot_be_given_up() {
    let mut h = host();
    let mut net = ready_network(&mut h);
    assert_eq!(
        net.advance(Event::Cancelled),
        Err(NetworkError::State { state: NetworkState::Ready })
    );
    let first = net.remove();
    assert_eq!(
        net.advance(Event::Cancelled),
        Err(NetworkError::State { state: NetworkState::TearingDown })
    );
    assert_eq!(net.attachment(1), Some(Attachment::Attached));
    assert_eq!(drive(&mut net, &mut h, first), Ok(()));
    assert_eq!(net.state(), NetworkState::Removed);
}

#[test]
fn generated_and_guest_names_are_unique() {
    let mut net = NetworkWithNetns::new(config("/run/netns/sandbox"));
    net.setup().unwrap();
    let links: Vec<LinkRecord> = (0..20)
        .map(|i| {
            let kind = if i % 2 == 0 { LinkKind::Veth } else { LinkKind::Tap };
            link(i % 7, &format!("if{}", i % 15), kind, 1, i as u8)
        })
        .collect();
    let host_links: Vec<String> = (0..5).map(|i| format!("vmtap{}", i)).collect();
    let mut in_use: BTreeSet<String> = host_links.iter().cloned().collect();
    in_use.extend(links.iter().map(|l| l.name.clone()));
    let event = Event::Discovered { links, routes: Vec::new(), neighs: Vec::new(), host_links };
    net.advance(event).unwrap();
    assert_eq!(net.endpoint_count(), 15);
    let mut guest_names = BTreeSet::new();
    for slot in 0..net.endpoint_count() {
        let e = net.endpoint(slot).unwrap();
        assert_eq!(e.index, slot);
        assert!(guest_names.insert(e.name.clone()));
        let pair = e.pair.as_ref().unwrap();
        assert_eq!(pair.guest_name, e.name);
        assert!(in_use.insert(pair.host_name.clone()));
        if let Some(peer) = &pair.peer_name {
            assert!(in_use.insert(peer.clone()));
        }
    }
    assert_eq!(net.warnings().len(), 5);
}

fn live_discovery() -> sandbox_network::discovery::Discovery {
    let policy = DiscoveryPolicy { physical: PhysicalPolicy::PreferPassthrough, max_queues: 0 };
    match namespace() {
        Event::Discovered { links, .. } => discover(&links, &policy),
        _ => unreachable!(),
    }
}

fn namespace_routes() -> Vec<Route> {
    match namespace() {
        Event::Discovered { routes, .. } => routes,
        _ => unreachable!(),
    }
}

fn namespace_neighs() -> Vec<ARPNeighbor> {
    match namespace() {
        Event::Discovered { neighs, .. } => neighs,
        _ => unreachable!(),
    }
}

#[test]
fn restore_after_save_gives_the_network_back() {
    let mut h = host();
    let net = ready_network(&mut h);
    let saved = net.save().unwrap();
    let restored = NetworkWithNetns::restore(
        config("/run/netns/sandbox"),
        &saved,
        live_discovery(),
        &namespace_routes(),
        &namespace_neighs(),
    )
    .unwrap();
    assert_eq!(restored.state(), NetworkState::Ready);
    assert_eq!(restored.save(), Some(saved));
    assert_eq!(restored.interfaces(), net.interfaces());
    assert_eq!(restored.routes(), net.routes());
    assert_eq!(restored.neighs(), net.neighs());
    assert!(restored.warnings().is_empty());
    assert_eq!(restored.attachment(0), Some(Attachment::Attached));
    assert_eq!(restored.attachment(1), Some(Attachment::Attached));
    assert_eq!(restored.endpoint(0), net.endpoint(0));
}

#[test]
fn a_restored_network_can_be_removed() {
    let mut h = host();
    let net = ready_network(&mut h);
    let saved = net.save().unwrap();
    let mut restored = NetworkWithNetns::restore(
        config("/run/netns/sandbox"),
        &saved,
        live_discovery(),
        &Vec::new(),
        &Vec::new(),
    )
    .unwrap();
    let before = h.log.len();
    let first = restored.remove();
    assert_eq!(drive(&mut restored, &mut h, first), Ok(()));
    assert_eq!(restored.state(), NetworkState::Removed);
    assert_eq!(h.log.len(), before + 5);
    assert!(h.plugged.is_empty());
    assert!(!h.links.contains("vmtap2"));
}

#[test]
fn restore_names_the_first_state_that_does_not_fit() {
    let mut h = host();
    let saved = ready_network(&mut h).save().unwrap();
    let attempt = |states: &Vec<EndpointState>| {
        NetworkWithNetns::restore(
            config("/run/netns/sandbox"),
            states,
            live_discovery(),
            &Vec::new(),
            &Vec::new(),
        )
        .map(|net| net.endpoint_count())
    };
    assert_eq!(attempt(&saved), Ok(2));
    assert_eq!(attempt(&Vec::new()), Ok(0));
    let mut states = saved.clone_states();
    states[1].name = s("gone");
    assert_eq!(attempt(&states), Err(NetworkError::Stale { endpoint: 1 }));
    let mut states = saved.clone_states();
    states[0].hw_addr = HardwareAddr::new([2, 0, 0, 0, 0, 0]);
    states[1].mtu = 9000;
    assert_eq!(attempt(&states), Err(NetworkError::Stale { endpoint: 0 }));
    let mut states = saved.clone_states();
    states[1].kind = EndpointKind::Vlan;
    assert_eq!(attempt(&states), Err(NetworkError::Stale { endpoint: 1 }));
    let mut states = saved.clone_states();
    states[1].index = 5;
    assert_eq!(attempt(&states), Err(NetworkError::Stale { endpoint: 1 }));
    let mut states = saved.clone_states();
    states[0].host_name = None;
    assert_eq!(attempt(&states), Err(NetworkError::Stale { endpoint: 0 }));
    let mut states = saved.clone_states();
    states[1].peer_name = Some(s("vmpeer9"));
    assert_eq!(attempt(&states), Err(NetworkError::Stale { endpoint: 1 }));
    let mut states = saved.clone_states();
    states[0].peer_name = Some(s("vmtap2"));
    assert_eq!(attempt(&states), Err(NetworkError::Stale { endpoint: 0 }));
    let mut states = saved.clone_states();
    states[1] = EndpointState { index: 1, ..states[0].clone_state() };
    assert_eq!(attempt(&states), Err(NetworkError::Stale { endpoint: 1 }));
}

trait CloneStates {
    fn clone_states(&self) -> Vec<EndpointState>;
}

trait CloneState {
    fn clone_state(&self) -> EndpointState;
}

impl CloneState for EndpointState {
    fn clone_state(&self) -> EndpointState {
        EndpointState {
            kind: self.kind,
            name: self.name.clone(),
            index: self.index,
            hw_addr: self.hw_addr,
            mtu: self.mtu,
            queues: self.queues,
            host_name: self.host_name.clone(),
            peer_name: self.peer_name.clone(),
            vlan_id: self.vlan_id,
        }
    }
}

impl CloneStates for Vec<EndpointState> {
    fn clone_states(&self) -> Vec<EndpointState> {
        self.iter().map(|state| state.clone_state()).collect()
    }
}

fn set_up_through_the_trait<N: Network>(net: &mut N) -> Result<Action, NetworkError> {
    net.setup()
}

#[test]
fn the_network_is_used_through_its_trait() {
    let c = NetworkConfig::NetworkResourceWithNetNs(config("/run/netns/sandbox"));
    let mut net = new(&c);
    assert_eq!(net.state(), NetworkState::Created);
    assert_eq!(net.config(), &config("/run/netns/sandbox"));
    assert_eq!(
        set_up_through_the_trait(&mut net),
        Ok(Action::Discover { netns_path: s("/run/netns/sandbox") })
    );
    assert!(matches!(Network::advance(&mut net, namespace()), Ok(Action::Attach { .. })));
    assert!(Network::advance(&mut net, Event::Attached).is_ok());
    assert_eq!(
        Network::advance(&mut net, Event::Attached),
        Ok(Action::Finished { result: Ok(()) })
    );
    assert_eq!(Network::interfaces(&net).unwrap().len(), 2);
    assert_eq!(Network::routes(&net).unwrap().len(), 4);
    assert_eq!(Network::neighs(&net).unwrap().len(), 2);
    assert_eq!(Network::save(&net).unwrap().len(), 2);
    assert!(matches!(Network::remove(&mut net), Ok(Action::Detach { endpoint: 1, .. })));
}
