use ipneigh::entry::{decode_entries, decode_text, is_valid_lladdr, parse_state};
use ipneigh::ip::normalize_ip_addr;
use ipneigh::resolve::{lookup_in_records, neighbors_from_records};
use ipneigh::table::{build_table, lookup_in};
use ipneigh::{DecodeFault, IpAddress, LlAddr, LookupError, RawNeighbor, ReachabilityState};

fn v4(a: u8, b: u8, c: u8, d: u8) -> IpAddress {
    IpAddress::V4(u32::from_be_bytes([a, b, c, d]))
}

fn mapped(a: u8, b: u8, c: u8, d: u8) -> IpAddress {
    IpAddress::V6(0xffff_0000_0000 | u32::from_be_bytes([a, b, c, d]) as u128)
}

fn record(dst: IpAddress, lladdr: Option<&str>, state: &[&str]) -> RawNeighbor {
    RawNeighbor {
        dst,
        dev: "eth0".to_string(),
        lladdr: lladdr.map(|l| l.to_string()),
        state: state.iter().map(|s| s.to_string()).collect(),
    }
}

fn reachable_table() -> Vec<RawNeighbor> {
    vec![record(v4(192, 0, 2, 5), Some("AA:BB:CC:DD:EE:FF"), &["REACHABLE"])]
}

#[test]
fn lladdr_is_lowercased() {
    let l = LlAddr::from_string("AA:bb:Cc:DD:EE:FF".to_string());
    assert_eq!(l.as_str(), "aa:bb:cc:dd:ee:ff");
}

#[test]
fn lladdr_equality_ignores_case() {
    let s = "aB:cD:eF:01:23:45";
    let plain = LlAddr::from_string(s.to_string());
    let lower = LlAddr::from_string(s.to_lowercase());
    let upper = LlAddr::from_string(s.to_uppercase());
    assert_eq!(plain, lower);
    assert_eq!(plain, upper);
    assert_ne!(plain, LlAddr::from_string("ab:cd:ef:01:23:46".to_string()));
}

#[test]
fn lladdr_lowercases_non_ascii_text() {
    let l = LlAddr::from_string("ÄB:ÖC".to_string());
    assert_eq!(l.as_str(), "äb:öc");
}

#[test]
fn normalize_keeps_ipv4() {
    let a = v4(192, 0, 2, 5);
    assert_eq!(normalize_ip_addr(a), a);
}

#[test]
fn normalize_unmaps_ipv4_mapped() {
    assert_eq!(normalize_ip_addr(mapped(192, 0, 2, 5)), v4(192, 0, 2, 5));
}

#[test]
fn normalize_unmaps_ipv4_compatible() {
    assert_eq!(normalize_ip_addr(IpAddress::V6(1)), v4(0, 0, 0, 1));
}

#[test]
fn normalize_keeps_plain_ipv6() {
    let c = IpAddress::V6(0x2001_0db8_0000_0000_0000_0000_0000_0001);
    assert_eq!(normalize_ip_addr(c), c);
    let d = IpAddress::V6(0xfe80_0000_0000_0000_0000_ffff_c000_0205);
    assert_eq!(normalize_ip_addr(d), d);
}

#[test]
fn states_parse() {
    assert_eq!(parse_state("DELAY"), Some(ReachabilityState::Delay));
    assert_eq!(parse_state("FAILED"), Some(ReachabilityState::Failed));
    assert_eq!(parse_state("INCOMPLETE"), Some(ReachabilityState::Incomplete));
    assert_eq!(parse_state("REACHABLE"), Some(ReachabilityState::Reachable));
    assert_eq!(parse_state("STALE"), Some(ReachabilityState::Stale));
    assert_eq!(parse_state("BOGUS"), None);
    assert_eq!(parse_state("PERMANENT"), None);
    assert_eq!(parse_state(""), None);
}

#[test]
fn hardware_address_syntax() {
    assert!(is_valid_lladdr("aa:bb:cc:dd:ee:ff"));
    assert!(is_valid_lladdr("AA:BB:CC:DD:EE:FF"));
    assert!(is_valid_lladdr("0a"));
    assert!(!is_valid_lladdr(""));
    assert!(!is_valid_lladdr("a"));
    assert!(!is_valid_lladdr("aa:bb:"));
    assert!(!is_valid_lladdr("aa-bb-cc"));
    assert!(!is_valid_lladdr("gg:00"));
}

#[test]
fn round_trip_scenario() {
    let raws = reachable_table();
    let table = neighbors_from_records(&raws).unwrap();
    assert_eq!(table.len(), 1);
    let want = LlAddr::from_string("aa:bb:cc:dd:ee:ff".to_string());
    assert_eq!(table.get(v4(192, 0, 2, 5)), Some(&want));
    assert_eq!(table.get(v4(192, 0, 2, 5)).unwrap().as_str(), "aa:bb:cc:dd:ee:ff");
    let found = lookup_in_records(&raws, v4(192, 0, 2, 5)).unwrap();
    assert_eq!(found, Some(want));
}

#[test]
fn absence_scenario() {
    let raws = vec![record(v4(192, 0, 2, 9), None, &["INCOMPLETE"])];
    let table = neighbors_from_records(&raws).unwrap();
    assert_eq!(table.len(), 0);
    assert_eq!(table.get(v4(192, 0, 2, 9)), None);
    assert_eq!(lookup_in_records(&raws, v4(192, 0, 2, 9)).unwrap(), None);
}

#[test]
fn unmatched_ip_scenario() {
    let raws = reachable_table();
    assert_eq!(lookup_in_records(&raws, v4(192, 0, 2, 200)).unwrap(), None);
}

#[test]
fn malformed_state_scenario() {
    let raws = vec![
        record(v4(192, 0, 2, 5), Some("aa:bb:cc:dd:ee:ff"), &["REACHABLE"]),
        record(v4(192, 0, 2, 6), Some("aa:bb:cc:dd:ee:01"), &["STALE", "BOGUS"]),
    ];
    let r = neighbors_from_records(&raws);
    assert!(matches!(r, Err(LookupError::JsonError(DecodeFault::UnknownState { record: 1 }))));
    let l = lookup_in_records(&raws, v4(192, 0, 2, 5));
    assert!(matches!(l, Err(LookupError::JsonError(DecodeFault::UnknownState { record: 1 }))));
}

#[test]
fn mapped_address_scenario() {
    let raws = vec![record(mapped(192, 0, 2, 5), Some("AA:BB:CC:DD:EE:FF"), &["REACHABLE"])];
    let found = lookup_in_records(&raws, v4(192, 0, 2, 5)).unwrap();
    assert_eq!(found.unwrap().as_str(), "aa:bb:cc:dd:ee:ff");
    let found6 = lookup_in_records(&raws, mapped(192, 0, 2, 5)).unwrap();
    assert_eq!(found6.unwrap().as_str(), "aa:bb:cc:dd:ee:ff");
}

#[test]
fn empty_state_is_refused() {
    let raws = vec![record(v4(192, 0, 2, 5), Some("aa:bb:cc:dd:ee:ff"), &[])];
    let r = decode_entries(&raws);
    assert!(matches!(r, Err(LookupError::JsonError(DecodeFault::EmptyState { record: 0 }))));
}

#[test]
fn malformed_lladdr_is_refused() {
    let raws = vec![
        record(v4(192, 0, 2, 5), Some("aa:bb:cc:dd:ee:ff"), &["REACHABLE"]),
        record(v4(192, 0, 2, 6), None, &["FAILED"]),
        record(v4(192, 0, 2, 7), Some("not-an-address"), &["STALE"]),
    ];
    let r = decode_entries(&raws);
    assert!(matches!(
        r,
        Err(LookupError::JsonError(DecodeFault::MalformedLinkLayerAddress { record: 2 }))
    ));
}

#[test]
fn decoded_entries_keep_fields() {
    let raws = vec![record(v4(10, 0, 0, 1), Some("0A:0B:0C:0D:0E:0F"), &["STALE", "DELAY"])];
    let es = decode_entries(&raws).unwrap();
    assert_eq!(es.len(), 1);
    assert_eq!(es[0].dst, v4(10, 0, 0, 1));
    assert_eq!(es[0].dev, "eth0");
    assert_eq!(es[0].lladdr.as_ref().unwrap().as_str(), "0a:0b:0c:0d:0e:0f");
    assert_eq!(es[0].state, vec![ReachabilityState::Stale, ReachabilityState::Delay]);
}

#[test]
fn table_keys_are_resolved_entries() {
    let raws = vec![
        record(v4(192, 0, 2, 1), Some("00:00:00:00:00:01"), &["REACHABLE"]),
        record(v4(192, 0, 2, 2), None, &["INCOMPLETE"]),
        record(v4(192, 0, 2, 3), None, &["FAILED"]),
        record(v4(192, 0, 2, 4), Some("00:00:00:00:00:04"), &["STALE"]),
    ];
    let es = decode_entries(&raws).unwrap();
    let table = build_table(&es);
    assert_eq!(table.len(), 2);
    assert!(table.get(v4(192, 0, 2, 2)).is_none());
    assert!(table.get(v4(192, 0, 2, 3)).is_none());
    let pairs = table.into_pairs();
    let keys: Vec<IpAddress> = pairs.iter().map(|p| p.0).collect();
    assert!(keys.contains(&v4(192, 0, 2, 1)));
    assert!(keys.contains(&v4(192, 0, 2, 4)));
}

#[test]
fn later_duplicate_wins_in_table() {
    let raws = vec![
        record(v4(192, 0, 2, 5), Some("00:00:00:00:00:01"), &["STALE"]),
        record(v4(192, 0, 2, 5), Some("00:00:00:00:00:02"), &["REACHABLE"]),
        record(v4(192, 0, 2, 5), None, &["FAILED"]),
    ];
    let table = neighbors_from_records(&raws).unwrap();
    assert_eq!(table.len(), 1);
    assert_eq!(table.get(v4(192, 0, 2, 5)).unwrap().as_str(), "00:00:00:00:00:02");
}

#[test]
fn lookup_takes_first_matching_entry() {
    let raws = vec![
        record(v4(192, 0, 2, 5), None, &["INCOMPLETE"]),
        record(v4(192, 0, 2, 5), Some("00:00:00:00:00:02"), &["REACHABLE"]),
        record(v4(192, 0, 2, 6), Some("00:00:00:00:00:06"), &["REACHABLE"]),
    ];
    let es = decode_entries(&raws).unwrap();
    assert_eq!(lookup_in(&es, v4(192, 0, 2, 5)), None);
    assert_eq!(lookup_in(&es, v4(192, 0, 2, 6)).unwrap().as_str(), "00:00:00:00:00:06");
    assert_eq!(lookup_in(&es, mapped(192, 0, 2, 6)).unwrap().as_str(), "00:00:00:00:00:06");
}

#[test]
fn text_decoding() {
    assert_eq!(decode_text(b"[]").unwrap(), "[]");
    assert_eq!(decode_text("ä".as_bytes()).unwrap(), "ä");
    assert!(matches!(decode_text(&[b'[', 0xff, b']']), Err(LookupError::Utf8Error(1))));
}
