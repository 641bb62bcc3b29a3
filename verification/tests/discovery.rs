use shell_cast::discovery::{
    device_changed, device_name, merge_announced, parse_capabilities, pick_address,
    settled_address, Device, IpAddress, CA_VIDEO_OUT,
};

#[test]
fn known_capability_masks() {
    assert_eq!(parse_capabilities(Some("5")) & CA_VIDEO_OUT, 1);
    assert_eq!(parse_capabilities(Some("4101")) & CA_VIDEO_OUT, 1);
    assert_eq!(parse_capabilities(Some("2052")) & CA_VIDEO_OUT, 0);
    assert_eq!(parse_capabilities(Some("32")) & CA_VIDEO_OUT, 0);
}

#[test]
fn missing_or_malformed_ca_defaults_to_video() {
    for ca in [
        None,
        Some(""),
        Some("banana"),
        Some("-1"),
        Some("99999999999999999999"),
    ] {
        assert_eq!(parse_capabilities(ca), CA_VIDEO_OUT, "ca = {ca:?}");
    }
}

fn device(ca: u32) -> Device {
    Device {
        id: String::new(),
        name: String::new(),
        addr: IpAddress::V4(0x7f00_0001),
        port: 8009,
        ca,
    }
}

#[test]
fn device_has_video() {
    assert!(device(1).has_video());
    assert!(device(4101).has_video());
    assert!(!device(0).has_video());
    assert!(!device(2052).has_video());
}

#[test]
fn address_preference() {
    let v4 = IpAddress::V4(0xc0a8_0105);
    let loopback = IpAddress::V4(0x7f00_0001);
    let v6 = IpAddress::V6(0x2001_0db8_0000_0000_0000_0000_0000_0001);
    assert_eq!(pick_address(&[], &[]), None);
    assert_eq!(pick_address(&[v6, loopback], &[false, true]), Some(loopback));
    assert_eq!(pick_address(&[v6], &[false]), Some(v6));
    assert_eq!(pick_address(&[loopback, v4], &[true, true]), Some(loopback));
    // A reachable IPv6 address beats an unreachable IPv4 one.
    assert_eq!(pick_address(&[v4, v6], &[false, true]), Some(v6));
    // With nothing reachable, IPv4 comes first.
    assert_eq!(pick_address(&[v6, v4], &[false, false]), Some(v4));
}

#[test]
fn fresh_addresses_come_first_without_repeats() {
    let a = IpAddress::V4(1);
    let b = IpAddress::V4(2);
    let c = IpAddress::V6(3);
    assert_eq!(merge_announced(&vec![c, b], &vec![a, b, a]), vec![a, b, c]);
    assert_eq!(merge_announced(&vec![a], &vec![]), vec![a]);
}

#[test]
fn a_working_address_is_not_downgraded() {
    let old = IpAddress::V4(1);
    let new = IpAddress::V6(2);
    assert_eq!(settled_address(Some((old, true)), new, false), old);
    assert_eq!(settled_address(Some((old, false)), new, false), new);
    assert_eq!(settled_address(Some((old, true)), new, true), new);
    assert_eq!(settled_address(None, new, false), new);
}

#[test]
fn names_fall_back_to_the_service_name() {
    assert_eq!(device_name(Some("Living Room TV"), "x._googlecast._tcp.local."), "Living Room TV");
    assert_eq!(
        device_name(None, "Chromecast-1234._googlecast._tcp.local."),
        "Chromecast-1234"
    );
    assert_eq!(device_name(None, "odd"), "odd");
}

#[test]
fn only_real_changes_count() {
    let d = Device {
        id: "id".to_string(),
        name: "TV".to_string(),
        addr: IpAddress::V4(1),
        port: 8009,
        ca: 5,
    };
    assert!(!device_changed(Some(&d), "TV", IpAddress::V4(1), 8009, 5));
    assert!(device_changed(Some(&d), "TV", IpAddress::V4(2), 8009, 5));
    assert!(device_changed(Some(&d), "Kitchen", IpAddress::V4(1), 8009, 5));
    assert!(device_changed(None, "TV", IpAddress::V4(1), 8009, 5));
}

#[test]
fn device_list_is_sorted_by_name() {
    let entry = |id: &str, name: &str| {
        (id.to_string(), name.to_string(), "192.168.1.5:8009".to_string(), 5u32)
    };
    let list = shell_cast::discovery::device_list(vec![
        entry("c", "Kitchen"),
        entry("a", "Bedroom"),
        entry("d", "Living Room"),
        entry("b", "Bed"),
        entry("e", "Zebra"),
        entry("f", "Äpfel"),
    ]);
    let names: Vec<&str> = list.iter().map(|e| e.1.as_str()).collect();
    assert_eq!(names, vec!["Bed", "Bedroom", "Kitchen", "Living Room", "Zebra", "Äpfel"]);
    assert_eq!(list[0].0, "b");
    assert!(shell_cast::discovery::device_list(vec![]).is_empty());
}
