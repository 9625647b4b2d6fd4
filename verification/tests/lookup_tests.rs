use rusher::net::{IpAddr, Ipv4Addr};
use rusher::scanner::lookup::{dig_candidates, nslookup_candidates, pick_resolved, trim_text};

#[test]
fn trimming_drops_outer_white_space() {
    assert_eq!(trim_text("  a b \t\n"), "a b");
    assert_eq!(trim_text("\u{3000}x\u{3000}"), "x");
    assert_eq!(trim_text("   "), "");
    assert_eq!(trim_text(""), "");
    assert_eq!(trim_text("abc"), "abc");
}

#[test]
fn nslookup_addresses_are_read_from_address_lines() {
    let output = "Server:\t\t127.0.0.53\nAddress:\t127.0.0.53#53\n\nNon-authoritative answer:\nName:\tgithub.com\nAddress: 140.82.112.3\r\n  地址: 140.82.112.4  \nAddresses: 1.1.1.1\n";
    assert_eq!(
        nslookup_candidates(output),
        vec!["127.0.0.53#53", "140.82.112.3", "140.82.112.4"]
    );
    assert!(nslookup_candidates("").is_empty());
}

#[test]
fn dig_lines_are_trimmed() {
    assert_eq!(dig_candidates("140.82.112.3\n 140.82.112.4 \ngithub.com.\n"), vec!["140.82.112.3", "140.82.112.4", "github.com."]);
    assert_eq!(dig_candidates("a\r\n\nb"), vec!["a", "", "b"]);
}

#[test]
fn resolved_addresses_come_from_the_first_lookup_that_found_any() {
    let a = IpAddr::V4(Ipv4Addr::new(1, 1, 1, 1));
    let b = IpAddr::V4(Ipv4Addr::new(2, 2, 2, 2));
    let c = IpAddr::V4(Ipv4Addr::new(3, 3, 3, 3));
    assert_eq!(pick_resolved(vec![a, b, a], vec![c], vec![c]), vec![a, b]);
    assert_eq!(pick_resolved(vec![], vec![c, c], vec![a]), vec![c]);
    assert_eq!(pick_resolved(vec![], vec![], vec![b, a]), vec![b, a]);
    assert!(pick_resolved(vec![], vec![], vec![]).is_empty());
}

#[test]
fn lines_split_like_str_lines() {
    assert!(dig_candidates("").is_empty());
    assert_eq!(dig_candidates("\n"), vec![""]);
    assert_eq!(dig_candidates("x\n\n"), vec!["x", ""]);
    assert_eq!(dig_candidates("a\nb"), vec!["a", "b"]);
}
