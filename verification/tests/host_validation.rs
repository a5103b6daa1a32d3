//! Endpoint validation: IPv4 and IPv6 literals and hostnames.

use chaos_type::host::is_valid_ip_or_hostname;

fn ok(s: &str) -> bool {
    is_valid_ip_or_hostname(&s.as_bytes().to_vec())
}

#[test]
fn accepts_loopback_ipv4() {
    assert!(ok("127.0.0.1"));
}

#[test]
fn accepts_loopback_ipv6() {
    assert!(ok("::1"));
}

#[test]
fn accepts_hostname() {
    assert!(ok("example.com"));
    assert!(ok("my-host.example.com"));
    assert!(ok("localhost"));
}

#[test]
fn rejects_leading_hyphen() {
    assert!(!ok("-bad.com"));
}

#[test]
fn rejects_hyphen_at_label_edge() {
    assert!(!ok("bad-.com"));
    assert!(!ok("bad.-com"));
    assert!(!ok("bad.com-"));
}

#[test]
fn rejects_empty_string() {
    assert!(!ok(""));
}

#[test]
fn rejects_overlong_hostname() {
    let long = "a".repeat(254);
    assert!(!is_valid_ip_or_hostname(&long.as_bytes().to_vec()));
    let still_ok = "a".repeat(253);
    assert!(is_valid_ip_or_hostname(&still_ok.as_bytes().to_vec()));
}

#[test]
fn ipv4_octets_are_checked() {
    assert!(ok("192.168.1.100"));
    assert!(ok("0.0.0.0"));
    assert!(ok("255.255.255.255"));
    // Not IPv4 literals, but valid as hostnames of digits and dots.
    assert!(ok("256.0.0.1"));
    assert!(ok("1.2.3"));
    // Dots at the ends make them no hostname either.
    assert!(!ok(".1.2.3.4"));
    assert!(!ok("1.2.3.4."));
}

#[test]
fn ipv6_forms() {
    assert!(ok("1:2:3:4:5:6:7:8"));
    assert!(ok("2001:db8::8a2e:370:7334"));
    assert!(ok("fe80::"));
    assert!(ok("::"));
    assert!(!ok(":"));
    assert!(!ok(":::"));
    assert!(!ok("1::2::3"));
    assert!(!ok("1:2:3:4:5:6:7:8:9"));
    assert!(!ok("12345::6"));
    assert!(!ok("::1:2:3:4:5:6:7:8"));
}
