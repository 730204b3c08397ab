use sandbox_network::naming::{decimal_string, is_taken, pick_name, MAX_PROBES};
use sandbox_network::netns::{generate_netns_name, GuardState, NamespaceError, NetnsGuard};
use sandbox_network::types::HardwareAddr;

#[test]
fn decimal_values() {
    assert_eq!(decimal_string(0), "0");
    assert_eq!(decimal_string(7), "7");
    assert_eq!(decimal_string(10), "10");
    assert_eq!(decimal_string(109), "109");
    assert_eq!(decimal_string(4294967295), "4294967295");
    assert_eq!(decimal_string(u64::MAX), "18446744073709551615");
}

#[test]
fn the_seed_is_taken_when_free() {
    let taken = vec![String::from("eth0"), String::from("vmtap4")];
    assert_eq!(pick_name("vmtap", 3, &taken), Some(String::from("vmtap3")));
    assert_eq!(pick_name("vmtap", 0, &Vec::new()), Some(String::from("vmtap0")));
}

#[test]
fn taken_names_are_passed_over() {
    let taken =
        vec![String::from("vmtap3"), String::from("vmtap5"), String::from("vmtap4")];
    assert_eq!(pick_name("vmtap", 3, &taken), Some(String::from("vmtap6")));
    assert!(is_taken(&taken, &String::from("vmtap5")));
    assert!(!is_taken(&taken, &String::from("vmtap6")));
}

#[test]
fn probing_gives_up_after_the_limit() {
    let taken: Vec<String> = (10..10 + MAX_PROBES).map(|n| format!("p{}", n)).collect();
    assert_eq!(pick_name("p", 10, &taken), None);
    assert_eq!(pick_name("p", 11, &taken), Some(format!("p{}", 10 + MAX_PROBES)));
}

#[test]
fn probing_near_the_largest_seed() {
    assert_eq!(pick_name("vmtap", u32::MAX, &Vec::new()), Some(String::from("vmtap4294967295")));
    let taken = vec![String::from("vmtap4294967295")];
    assert_eq!(pick_name("vmtap", u32::MAX, &taken), Some(String::from("vmtap4294967296")));
}

#[test]
fn namespace_names_are_scoped_to_the_sandbox() {
    assert_eq!(generate_netns_name("abc123"), "sandbox-netns-abc123");
    assert_eq!(generate_netns_name(""), "sandbox-netns-");
    assert_eq!(generate_netns_name("abc123"), generate_netns_name("abc123"));
    assert_ne!(generate_netns_name("a"), generate_netns_name("b"));
}

#[test]
fn host_side_address_flips_one_bit() {
    let guest = HardwareAddr::new([0xaa, 0xbb, 0xcc, 0x00, 0x00, 0x01]);
    let host = guest.host_side();
    assert_eq!(host, HardwareAddr::new([0xa8, 0xbb, 0xcc, 0x00, 0x00, 0x01]));
    assert!(!host.same(&guest));
    assert_eq!(host.host_side(), guest);
    assert!(guest.same(&HardwareAddr::new([0xaa, 0xbb, 0xcc, 0x00, 0x00, 0x01])));
    assert_eq!(
        HardwareAddr::new([0, 0, 0, 0, 0, 0]).host_side(),
        HardwareAddr::new([2, 0, 0, 0, 0, 0])
    );
}

#[test]
fn addresses_differ_in_any_octet() {
    let a = HardwareAddr::new([1, 2, 3, 4, 5, 6]);
    for i in 0..6 {
        let mut octets = [1, 2, 3, 4, 5, 6];
        octets[i] = 9;
        assert!(!a.same(&HardwareAddr::new(octets)));
    }
}

#[test]
fn guard_is_held_between_enter_and_leave() {
    let mut guard = NetnsGuard::new();
    assert_eq!(guard.current(), GuardState::Released);
    assert!(!guard.is_held());
    assert_eq!(guard.acquire("/run/netns/a"), Ok(()));
    assert_eq!(guard.current(), GuardState::Entering);
    assert!(!guard.is_held());
    assert_eq!(guard.entered(true), Ok(()));
    assert!(guard.is_held());
    assert_eq!(guard.release(true), Ok(()));
    assert_eq!(guard.current(), GuardState::Released);
    assert_eq!(guard.acquire("/run/netns/a"), Ok(()));
}

#[test]
fn guard_does_not_nest() {
    let mut guard = NetnsGuard::new();
    assert_eq!(guard.acquire("/run/netns/a"), Ok(()));
    assert_eq!(guard.acquire("/run/netns/b"), Err(NamespaceError::Nested));
    assert_eq!(guard.entered(true), Ok(()));
    assert_eq!(guard.acquire("/run/netns/b"), Err(NamespaceError::Nested));
    assert_eq!(guard.current(), GuardState::Held);
}

#[test]
fn guard_refuses_an_empty_path() {
    let mut guard = NetnsGuard::new();
    assert_eq!(guard.acquire(""), Err(NamespaceError::EmptyPath));
    assert_eq!(guard.current(), GuardState::Released);
}

#[test]
fn failed_entry_frees_the_guard() {
    let mut guard = NetnsGuard::new();
    assert_eq!(guard.acquire("/run/netns/a"), Ok(()));
    assert_eq!(guard.entered(false), Err(NamespaceError::EnterFailed));
    assert_eq!(guard.current(), GuardState::Released);
    assert_eq!(guard.acquire("/run/netns/a"), Ok(()));
}

#[test]
fn failed_restoration_takes_the_thread_out_of_service() {
    let mut guard = NetnsGuard::new();
    assert_eq!(guard.acquire("/run/netns/a"), Ok(()));
    assert_eq!(guard.entered(true), Ok(()));
    assert_eq!(guard.release(false), Err(NamespaceError::RestoreFailed));
    assert_eq!(guard.current(), GuardState::Unusable);
    assert_eq!(guard.acquire("/run/netns/a"), Err(NamespaceError::ThreadUnusable));
    assert_eq!(guard.entered(true), Err(NamespaceError::NotExpected));
    assert_eq!(guard.release(true), Err(NamespaceError::NotExpected));
    assert_eq!(guard.current(), GuardState::Unusable);
}

#[test]
fn reports_out_of_turn_are_refused() {
    let mut guard = NetnsGuard::new();
    assert_eq!(guard.entered(true), Err(NamespaceError::NotExpected));
    assert_eq!(guard.release(true), Err(NamespaceError::NotExpected));
    assert_eq!(guard.current(), GuardState::Released);
    assert_eq!(guard.acquire("/run/netns/a"), Ok(()));
    assert_eq!(guard.release(true), Err(NamespaceError::NotExpected));
    assert_eq!(guard.current(), GuardState::Entering);
}

#[test]
fn address_text_values() {
    let addr = HardwareAddr::new([0xaa, 0xbb, 0xcc, 0x00, 0x00, 0x01]);
    assert_eq!(addr.to_text(), "aa:bb:cc:00:00:01");
    assert_eq!(HardwareAddr::new([0, 0, 0, 0, 0, 0]).to_text(), "00:00:00:00:00:00");
    assert_eq!(
        HardwareAddr::new([0xff, 0x10, 0x09, 0x9a, 0xef, 0x7c]).to_text(),
        "ff:10:09:9a:ef:7c"
    );
}

#[test]
fn address_is_read_back_from_its_text() {
    for octets in [
        [0xaa, 0xbb, 0xcc, 0x00, 0x00, 0x01],
        [0, 1, 2, 3, 4, 5],
        [255; 6],
        [0x0f, 0xf0, 0x5a, 0xa5, 0x12, 0xde],
    ] {
        let addr = HardwareAddr::new(octets);
        assert_eq!(HardwareAddr::parse(&addr.to_text()), Some(addr));
    }
    assert_eq!(
        HardwareAddr::parse("AA:Bb:cC:00:00:01"),
        Some(HardwareAddr::new([0xaa, 0xbb, 0xcc, 0x00, 0x00, 0x01]))
    );
}

#[test]
fn text_that_is_no_address_is_refused() {
    for text in [
        "",
        "aa:bb:cc:00:00",
        "aa:bb:cc:00:00:0",
        "aa:bb:cc:00:00:011",
        "aa:bb:cc:00:00:01:",
        "aa-bb-cc-00-00-01",
        "aa:bb:cc:00:00;01",
        "ag:bb:cc:00:00:01",
        "aa:bb:cc:00:00:0g",
        "aa:bb:cc:0 :00:01",
        ":aa:bb:cc:00:00:0",
        "aabbcc000001     ",
        "aa:bb:cc:00:00:0\u{e9}",
    ] {
        assert_eq!(HardwareAddr::parse(text), None, "{}", text);
    }
}
