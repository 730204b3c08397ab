use sandbox_network::discovery::{
    cap_queues, choose_physical_model, discover, resolve, DiscoveryPolicy, DiscoveryWarning,
    LinkKind, LinkRecord, NetworkModel, PhysicalPolicy, Resolution, WarningKind,
};
use sandbox_network::types::{HardwareAddr, IPAddress, IPFamily};

fn policy() -> DiscoveryPolicy {
    DiscoveryPolicy { physical: PhysicalPolicy::PreferPassthrough, max_queues: 0 }
}

fn link(index: u32, name: &str, kind: LinkKind) -> LinkRecord {
    LinkRecord {
        index,
        name: String::from(name),
        kind,
        hw_addr: Some(HardwareAddr::new([0xaa, 0xbb, 0xcc, 0x00, 0x00, index as u8])),
        mtu: Some(1500),
        queues: Some(1),
        addresses: vec![IPAddress {
            family: IPFamily::V4,
            address: format!("10.0.0.{}", index),
            mask: String::from("24"),
        }],
        passthrough_capable: false,
        macvtap_capable: false,
        vlan_id: None,
    }
}

#[test]
fn loopback_is_left_out_without_a_warning() {
    let records = vec![link(1, "lo", LinkKind::Loopback), link(2, "eth0", LinkKind::Veth)];
    assert_eq!(resolve(&records[0], &policy()), Resolution::Excluded);
    let d = discover(&records, &policy());
    assert_eq!(d.infos.len(), 1);
    assert_eq!(d.infos[0].name, "eth0");
    assert!(d.warnings.is_empty());
}

#[test]
fn software_links_are_tap_backed() {
    for kind in [LinkKind::Veth, LinkKind::Tap, LinkKind::Ipvlan] {
        assert_eq!(
            resolve(&link(3, "x", kind), &policy()),
            Resolution::Resolved(NetworkModel::TapBacked)
        );
    }
    let mut vlan = link(4, "vlan4", LinkKind::Vlan);
    vlan.vlan_id = Some(100);
    assert_eq!(resolve(&vlan, &policy()), Resolution::Resolved(NetworkModel::TapBacked));
    assert_eq!(
        resolve(&link(5, "mv", LinkKind::Macvtap), &policy()),
        Resolution::Resolved(NetworkModel::Macvtap)
    );
}

#[test]
fn physical_model_follows_the_policy() {
    let passthrough = Some(NetworkModel::Passthrough);
    let macvtap = Some(NetworkModel::Macvtap);
    let prefer_passthrough = PhysicalPolicy::PreferPassthrough;
    let prefer_macvtap = PhysicalPolicy::PreferMacvtap;
    assert_eq!(choose_physical_model(prefer_passthrough, true, true), passthrough);
    assert_eq!(choose_physical_model(prefer_passthrough, false, true), macvtap);
    assert_eq!(choose_physical_model(prefer_passthrough, true, false), passthrough);
    assert_eq!(choose_physical_model(prefer_passthrough, false, false), None);
    assert_eq!(choose_physical_model(prefer_macvtap, true, true), macvtap);
    assert_eq!(choose_physical_model(prefer_macvtap, true, false), passthrough);
    assert_eq!(choose_physical_model(prefer_macvtap, false, true), macvtap);
    assert_eq!(choose_physical_model(prefer_macvtap, false, false), None);
    assert_eq!(choose_physical_model(PhysicalPolicy::Exclude, true, true), None);
}

#[test]
fn physical_link_resolution() {
    let mut nic = link(2, "enp3s0", LinkKind::Physical);
    assert_eq!(resolve(&nic, &policy()), Resolution::Skipped(WarningKind::NoAttachmentModel));
    nic.passthrough_capable = true;
    nic.macvtap_capable = true;
    assert_eq!(resolve(&nic, &policy()), Resolution::Resolved(NetworkModel::Passthrough));
    let prefer_macvtap = DiscoveryPolicy { physical: PhysicalPolicy::PreferMacvtap, max_queues: 0 };
    assert_eq!(resolve(&nic, &prefer_macvtap), Resolution::Resolved(NetworkModel::Macvtap));
    let exclude = DiscoveryPolicy { physical: PhysicalPolicy::Exclude, max_queues: 0 };
    assert_eq!(resolve(&nic, &exclude), Resolution::Excluded);
}

#[test]
fn each_missing_attribute_has_its_warning() {
    let p = policy();
    assert_eq!(
        resolve(&link(1, "odd", LinkKind::Unknown), &p),
        Resolution::Skipped(WarningKind::UnknownLinkType)
    );
    let mut r = link(1, "a", LinkKind::Veth);
    r.hw_addr = None;
    assert_eq!(resolve(&r, &p), Resolution::Skipped(WarningKind::MissingHardwareAddr));
    let mut r = link(1, "a", LinkKind::Veth);
    r.mtu = None;
    assert_eq!(resolve(&r, &p), Resolution::Skipped(WarningKind::MissingMtu));
    r.mtu = Some(0);
    assert_eq!(resolve(&r, &p), Resolution::Skipped(WarningKind::MissingMtu));
    let mut r = link(1, "a", LinkKind::Veth);
    r.queues = None;
    assert_eq!(resolve(&r, &p), Resolution::Skipped(WarningKind::MissingQueues));
    r.queues = Some(0);
    assert_eq!(resolve(&r, &p), Resolution::Skipped(WarningKind::MissingQueues));
    let r = link(1, "v", LinkKind::Vlan);
    assert_eq!(resolve(&r, &p), Resolution::Skipped(WarningKind::MissingVlanId));
}

#[test]
fn the_first_missing_attribute_is_the_one_recorded() {
    let mut r = link(1, "a", LinkKind::Vlan);
    r.hw_addr = None;
    r.mtu = None;
    r.queues = None;
    assert_eq!(resolve(&r, &policy()), Resolution::Skipped(WarningKind::MissingHardwareAddr));
    r.hw_addr = Some(HardwareAddr::new([2, 0, 0, 0, 0, 1]));
    assert_eq!(resolve(&r, &policy()), Resolution::Skipped(WarningKind::MissingMtu));
}

#[test]
fn queue_cap_values() {
    assert_eq!(cap_queues(4, 0), 4);
    assert_eq!(cap_queues(4, 8), 4);
    assert_eq!(cap_queues(4, 4), 4);
    assert_eq!(cap_queues(4, 2), 2);
    assert_eq!(cap_queues(1, 1), 1);
}

#[test]
fn interfaces_come_by_ascending_index() {
    let records = vec![
        link(9, "i9", LinkKind::Veth),
        link(2, "i2", LinkKind::Tap),
        link(5, "i5", LinkKind::Veth),
        link(1, "lo", LinkKind::Loopback),
        link(3, "i3", LinkKind::Macvtap),
    ];
    let d = discover(&records, &policy());
    let names: Vec<&str> = d.infos.iter().map(|i| i.name.as_str()).collect();
    assert_eq!(names, vec!["i2", "i3", "i5", "i9"]);
    let indexes: Vec<u32> = d.infos.iter().map(|i| i.index).collect();
    assert_eq!(indexes, vec![2, 3, 5, 9]);
}

#[test]
fn links_of_equal_index_keep_their_report_order() {
    let records = vec![
        link(4, "a", LinkKind::Veth),
        link(2, "b", LinkKind::Veth),
        link(4, "c", LinkKind::Veth),
        link(1, "d", LinkKind::Veth),
        link(2, "e", LinkKind::Veth),
    ];
    let d = discover(&records, &policy());
    let names: Vec<&str> = d.infos.iter().map(|i| i.name.as_str()).collect();
    assert_eq!(names, vec!["d", "b", "e", "a", "c"]);
}

#[test]
fn resolved_interface_carries_the_attributes() {
    let mut r = link(7, "tap-ready", LinkKind::Tap);
    r.queues = Some(4);
    let capped = DiscoveryPolicy { physical: PhysicalPolicy::PreferPassthrough, max_queues: 2 };
    let d = discover(&vec![r], &capped);
    let info = &d.infos[0];
    assert_eq!(info.index, 7);
    assert_eq!(info.name, "tap-ready");
    assert_eq!(info.kind, LinkKind::Tap);
    assert_eq!(info.hw_addr, HardwareAddr::new([0xaa, 0xbb, 0xcc, 0, 0, 7]));
    assert_eq!(info.mtu, 1500);
    assert_eq!(info.queues, 2);
    assert_eq!(info.addresses, link(7, "tap-ready", LinkKind::Tap).addresses);
    assert_eq!(info.model, NetworkModel::TapBacked);
    assert_eq!(info.vlan_id, None);
}

#[test]
fn discovery_does_not_depend_on_report_order() {
    let make = |order: &[u32]| -> Vec<LinkRecord> {
        order
            .iter()
            .map(|&i| match i {
                1 => link(1, "lo", LinkKind::Loopback),
                2 => link(2, "veth0", LinkKind::Veth),
                3 => {
                    let mut r = link(3, "broken", LinkKind::Veth);
                    r.mtu = None;
                    r
                },
                4 => link(4, "tap0", LinkKind::Tap),
                _ => link(i, "odd", LinkKind::Unknown),
            })
            .collect()
    };
    let reference = discover(&make(&[1, 2, 3, 4, 5]), &policy());
    for order in [[5, 4, 3, 2, 1], [3, 1, 5, 2, 4], [2, 4, 1, 3, 5], [4, 5, 1, 2, 3]] {
        assert_eq!(discover(&make(&order), &policy()), reference);
    }
    let again = discover(&make(&[1, 2, 3, 4, 5]), &policy());
    assert_eq!(again, reference);
}

#[test]
fn a_skipped_interface_does_not_stop_the_others() {
    let mut broken = link(2, "broken", LinkKind::Veth);
    broken.hw_addr = None;
    let records = vec![link(3, "eth1", LinkKind::Veth), broken, link(1, "eth0", LinkKind::Tap)];
    let d = discover(&records, &policy());
    assert_eq!(d.infos.len(), 2);
    assert_eq!(d.infos[0].name, "eth0");
    assert_eq!(d.infos[1].name, "eth1");
    assert_eq!(
        d.warnings,
        vec![DiscoveryWarning {
            index: 2,
            name: String::from("broken"),
            kind: WarningKind::MissingHardwareAddr,
        }]
    );
}

#[test]
fn an_empty_namespace_has_no_interfaces() {
    let d = discover(&Vec::new(), &policy());
    assert!(d.infos.is_empty());
    assert!(d.warnings.is_empty());
}
