use ingram::helper::{check_ip, check_port, dahua_proto};
use ingram::net::{get_all_ip, get_ip_seg_len, parse_cidr, parse_ipv4, parse_target, TargetStream};

#[test]
fn cidr_count_matches_enumeration() {
    assert_eq!(get_ip_seg_len("192.168.1.0/30"), 4);
    let ips = get_all_ip("192.168.1.0/30");
    assert_eq!(
        ips,
        vec!["192.168.1.0", "192.168.1.1", "192.168.1.2", "192.168.1.3"]
    );
    assert_eq!(ips.len() as u64, get_ip_seg_len("192.168.1.0/30"));
}

#[test]
fn bare_address_is_a_slash_32_block() {
    assert_eq!(get_ip_seg_len("10.1.2.3"), 1);
    assert_eq!(get_all_ip("10.1.2.3"), vec!["10.1.2.3"]);
    assert_eq!(parse_cidr("10.1.2.3"), Some((0x0a010203, 32)));
}

#[test]
fn cidr_masks_host_bits() {
    // enumeration starts at the network address, host bits cleared
    assert_eq!(
        get_all_ip("192.168.1.5/30"),
        vec!["192.168.1.4", "192.168.1.5", "192.168.1.6", "192.168.1.7"]
    );
}

#[test]
fn range_count_in_order() {
    assert_eq!(get_ip_seg_len("10.0.0.1-10.0.0.5"), 5);
    assert_eq!(
        get_all_ip("10.0.0.1-10.0.0.5"),
        vec!["10.0.0.1", "10.0.0.2", "10.0.0.3", "10.0.0.4", "10.0.0.5"]
    );
}

#[test]
fn range_count_degrades_out_of_order() {
    // B < A degrades to a single unexpandable unit, not an error
    assert_eq!(get_ip_seg_len("10.0.0.5-10.0.0.1"), 1);
    assert_eq!(get_all_ip("10.0.0.5-10.0.0.1"), vec!["10.0.0.5-10.0.0.1"]);
    assert_eq!(get_ip_seg_len("start-end"), 1);
    assert_eq!(get_all_ip("start-end"), vec!["start-end"]);
}

#[test]
fn host_port_yields_the_host() {
    assert_eq!(get_ip_seg_len("10.0.0.9:8080"), 1);
    assert_eq!(get_all_ip("10.0.0.9:8080"), vec!["10.0.0.9"]);
    assert_eq!(
        parse_target("10.0.0.9:8080"),
        Some(("10.0.0.9".to_string(), Some(8080)))
    );
    assert_eq!(
        parse_target("camera.example:notaport"),
        Some(("camera.example".to_string(), None))
    );
    assert_eq!(parse_target("a:b:c"), None);
    assert_eq!(
        parse_target("camera.example"),
        Some(("camera.example".to_string(), None))
    );
}

#[test]
fn netmask_suffix_denotes_the_prefix() {
    assert_eq!(get_ip_seg_len("192.168.0.0/255.255.255.0"), 256);
    assert_eq!(parse_cidr("192.168.0.0/255.255.255.0"), Some((0xc0a80000, 24)));
    assert_eq!(
        get_all_ip("10.0.0.0/255.255.255.252"),
        vec!["10.0.0.0", "10.0.0.1", "10.0.0.2", "10.0.0.3"]
    );
    assert_eq!(parse_cidr("0.0.0.0/0.0.0.0"), Some((0, 0)));
    assert_eq!(parse_cidr("1.2.3.4/255.255.255.255"), Some((0x01020304, 32)));
    // a non-contiguous mask is no prefix: the line degrades to one unit
    assert_eq!(get_ip_seg_len("10.0.0.0/255.0.255.0"), 1);
    assert_eq!(get_all_ip("10.0.0.0/255.0.255.0"), vec!["10.0.0.0/255.0.255.0"]);
}

#[test]
fn non_ipv4_lines_degrade_to_one_unit() {
    assert_eq!(get_ip_seg_len("camera.example"), 1);
    assert_eq!(get_all_ip("camera.example"), vec!["camera.example"]);
    assert_eq!(get_ip_seg_len("::1"), 1);
    assert_eq!(get_ip_seg_len("10.0.0.0/33"), 1);
    assert_eq!(get_ip_seg_len("01.2.3.4/24"), 1); // leading zero rejects the quad
}

#[test]
fn parse_ipv4_grammar() {
    assert_eq!(parse_ipv4("0.0.0.0"), Some(0));
    assert_eq!(parse_ipv4("255.255.255.255"), Some(u32::MAX));
    assert_eq!(parse_ipv4("1.2.3.4"), Some(0x01020304));
    assert_eq!(parse_ipv4("1.2.3"), None);
    assert_eq!(parse_ipv4("1.2.3.4.5"), None);
    assert_eq!(parse_ipv4("1.2.3.256"), None);
    assert_eq!(parse_ipv4("01.2.3.4"), None);
    assert_eq!(parse_ipv4("+1.2.3.4"), None);
}

#[test]
fn stream_enumerates_in_order() {
    let mut stream = TargetStream::new(vec![
        "10.0.0.0/30".to_string(),
        "192.168.0.9".to_string(),
    ]);
    let mut seen = Vec::new();
    while let Some(item) = stream.next() {
        seen.push(item);
    }
    assert_eq!(
        seen,
        vec!["10.0.0.0", "10.0.0.1", "10.0.0.2", "10.0.0.3", "192.168.0.9"]
    );
    assert!(stream.next().is_none());
}

#[test]
fn stream_skip_reproduces_the_uninterrupted_run() {
    let specs = vec!["10.0.0.0/30".to_string(), "192.168.0.9".to_string()];
    let mut full = TargetStream::new(specs.clone());
    for _ in 0..3 {
        full.next();
    }
    let fourth = full.next().unwrap();

    let mut resumed = TargetStream::new(specs);
    resumed.skip(3);
    assert_eq!(resumed.next().unwrap(), fourth);

    let mut past_end = TargetStream::new(vec!["10.0.0.0/30".to_string()]);
    past_end.skip(100);
    assert!(past_end.next().is_none());
}

#[test]
fn port_and_ip_checks() {
    assert!(check_port("80"));
    assert!(check_port("65535"));
    assert!(!check_port("0"));
    assert!(!check_port("65536"));
    assert!(!check_port("http"));
    assert!(check_ip("192.168.1.1"));
    assert!(check_ip("010.0.0.1")); // field-by-field check is lenient
    assert!(!check_ip("192.168.1"));
    assert!(!check_ip("192.168.1.256"));
    assert!(!check_ip("a.b.c.d"));
}

#[test]
fn dahua_frame_headers() {
    assert!(dahua_proto(&[0xa0, 0x00, 0x12]));
    assert!(dahua_proto(&[0xf6, 0x00]));
    assert!(!dahua_proto(&[0xa0, 0x02]));
    assert!(!dahua_proto(&[0xa0]));
    assert!(!dahua_proto(&[]));
}
