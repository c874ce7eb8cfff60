use iptables_to_loki::{
    after_notice, after_read, create_push_request, decimal_string, encode_push_request, default_log_file, enrich,
    parse_log_line, parse_port, pick_name, AsnRecord, BatchAccumulator, CityRecord,
    CountryRecord, EntryError, Firewall, FirewallEntry, ModifyType, Submitted, TailAction,
};

const LINE: &str = "May 23 12:31:53 vyos kernel: [213370.255870] [OUTSIDE-LOCAL-default-D]IN=pppoe0 OUT= MAC= SRC=125.166.96.62 DST=80.80.80.80 LEN=143 TOS=0x00 PREC=0x00 TTL=110 ID=9398 PROTO=UDP SPT=1025 DPT=7140 LEN=123";

fn names(pairs: &[(&str, &str)]) -> Vec<(String, String)> {
    pairs.iter().map(|(k, v)| (k.to_string(), v.to_string())).collect()
}

fn firewall(rules: &[&str]) -> Firewall {
    Firewall { rules: rules.iter().map(|r| r.to_string()).collect() }
}

#[test]
fn rule_filter_is_exact() {
    let fw = firewall(&["OUTSIDE-LOCAL-default-D"]);
    assert!(fw.accepts("OUTSIDE-LOCAL-default-D"));
    assert!(!fw.accepts("outside-local-default-d"));
    assert!(!fw.accepts("OUTSIDE-LOCAL"));
    assert!(!fw.accepts("OUTSIDE-LOCAL-default-D2"));
    assert!(!firewall(&[]).accepts(""));
}

#[test]
fn rule_not_listed_is_dropped() {
    let (_, parsed) = parse_log_line(LINE, 2021).unwrap();
    let fw = firewall(&["WAN-IN-default-D"]);
    assert!(!fw.accepts(&parsed.rule));
}

#[test]
fn seven_entries_stay_pending_and_the_eighth_flushes() {
    let mut batch = BatchAccumulator::new(8);
    for i in 0..7 {
        assert!(batch.push(i, format!("line {}", i)).is_none());
    }
    assert_eq!(batch.len(), 7);
    let full = batch.push(7, "line 7".to_string()).unwrap();
    assert_eq!(batch.len(), 0);
    let expected: Vec<(i64, String)> = (0..8).map(|i| (i, format!("line {}", i))).collect();
    assert_eq!(full, expected);
}

#[test]
fn one_flush_per_capacity() {
    let mut batch = BatchAccumulator::new(3);
    let mut flushes = 0;
    for i in 0..10 {
        if batch.push(i, String::new()).is_some() {
            flushes += 1;
            assert_eq!(batch.len(), 0);
        }
    }
    assert_eq!(flushes, 3);
    assert_eq!(batch.len(), 1);
    assert_eq!(batch.capacity(), 3);
}

#[test]
fn english_name_is_preferred() {
    assert_eq!(pick_name(&names(&[("de", "Deutschland"), ("en", "Germany")])), Some("Germany".to_string()));
    assert_eq!(pick_name(&names(&[("de", "Deutschland"), ("fr", "Allemagne")])), Some("Deutschland".to_string()));
    assert_eq!(pick_name(&names(&[])), None);
}

fn city() -> CityRecord {
    CityRecord {
        names: names(&[("en", "Jakarta")]),
        latitude: Some("-6.1744".to_string()),
        longitude: Some("106.8294".to_string()),
    }
}

fn country() -> CountryRecord {
    CountryRecord { iso_code: Some("ID".to_string()), names: names(&[("en", "Indonesia")]) }
}

fn asn() -> AsnRecord {
    AsnRecord { number: Some(7713), organization: Some("Telkom".to_string()) }
}

#[test]
fn enrichment_keeps_present_fields() {
    let only_asn = enrich(Some(&asn()), None, None);
    assert_eq!(only_asn.asn, Some(7713));
    assert_eq!(only_asn.city, None);
    let all = enrich(Some(&asn()), Some(&city()), Some(&country()));
    assert_eq!(all.asn, only_asn.asn);
    assert_eq!(all.asn_org, only_asn.asn_org);
    assert_eq!(all.city.as_deref(), Some("Jakarta"));
    assert_eq!(all.country_code.as_deref(), Some("ID"));
    assert_eq!(all.country.as_deref(), Some("Indonesia"));
    assert_eq!(all.lat.as_deref(), Some("-6.1744"));
    assert_eq!(all.lng.as_deref(), Some("106.8294"));
    let none = enrich(None, None, None);
    assert_eq!(none.asn, None);
    assert_eq!(none.country, None);
}

#[test]
fn entry_renders_every_field_in_order() {
    let (_, parsed) = parse_log_line(LINE, 2021).unwrap();
    let entry = FirewallEntry::from(
        &parsed,
        Some("125.166.96.62".to_string()),
        Some("80.80.80.80".to_string()),
        Some(&city()),
        Some(&country()),
        Some(&asn()),
    )
    .unwrap();
    assert_eq!(
        entry.render(),
        "hostname=\"vyos\" rule=\"OUTSIDE-LOCAL-default-D\" interface=\"pppoe0\" mac=\"\" src=\"125.166.96.62\" src_port=\"1025\" dst=\"80.80.80.80\" dst_port=\"7140\" proto=\"UDP\" asn=\"7713\" asn_org=\"Telkom\" city=\"Jakarta\" country_code=\"ID\" country=\"Indonesia\" lat=\"-6.1744\" lng=\"106.8294\""
    );
}

#[test]
fn absent_geolocation_renders_empty_and_zero() {
    let (_, parsed) = parse_log_line(LINE, 2021).unwrap();
    let entry = FirewallEntry::from(&parsed, Some("a".to_string()), Some("b".to_string()), None, None, None).unwrap();
    assert!(entry.render().ends_with("proto=\"UDP\" asn=\"0\" asn_org=\"\" city=\"\" country_code=\"\" country=\"\" lat=\"0\" lng=\"0\""));
}

#[test]
fn entry_errors() {
    let (_, parsed) = parse_log_line(LINE, 2021).unwrap();
    let a = || Some("x".to_string());
    assert_eq!(FirewallEntry::from(&parsed, None, a(), None, None, None).err(), Some(EntryError::Src));
    assert_eq!(FirewallEntry::from(&parsed, a(), None, None, None, None).err(), Some(EntryError::Dst));
    let (_, no_ports) = parse_log_line("May 23 12:31:53 gw kernel: [R]SPT=1 DPT=x", 2021).unwrap();
    assert_eq!(FirewallEntry::from(&no_ports, a(), a(), None, None, None).err(), Some(EntryError::DstPort));
    let (_, bad_src) = parse_log_line("May 23 12:31:53 gw kernel: [R]SPT=70000 DPT=1", 2021).unwrap();
    assert_eq!(FirewallEntry::from(&bad_src, a(), a(), None, None, None).err(), Some(EntryError::SrcPort));
}

#[test]
fn port_parsing() {
    assert_eq!(parse_port("1025"), Some(1025));
    assert_eq!(parse_port("+80"), Some(80));
    assert_eq!(parse_port("0080"), Some(80));
    assert_eq!(parse_port("65535"), Some(65535));
    assert_eq!(parse_port("65536"), None);
    assert_eq!(parse_port("99999999999"), None);
    assert_eq!(parse_port(""), None);
    assert_eq!(parse_port("+"), None);
    assert_eq!(parse_port("-1"), None);
    assert_eq!(parse_port("8a"), None);
}

#[test]
fn decimal_text() {
    assert_eq!(decimal_string(0), "0");
    assert_eq!(decimal_string(7140), "7140");
    assert_eq!(decimal_string(u64::MAX), u64::MAX.to_string());
}

#[test]
fn push_request_wire_bytes() {
    let mut snappy = snap::raw::Encoder::new();
    let mut buf = Vec::new();
    let mut entries = vec![(1i64, "a".to_string())];
    let out = create_push_request(&mut snappy, &mut buf, &mut entries).unwrap();
    assert!(entries.is_empty());
    assert!(buf.is_empty());
    let mut expected = vec![0x0a, 33, 0x0a, 22];
    expected.extend_from_slice(b"{namespace=\"iptables\"}");
    expected.extend_from_slice(&[0x12, 7, 0x0a, 2, 0x08, 1, 0x12, 1, b'a']);
    let mut direct = Vec::new();
    encode_push_request(&vec![(1i64, "a".to_string())], &mut direct);
    assert_eq!(direct, expected);
    let back = snap::raw::Decoder::new().decompress_vec(&out).unwrap();
    assert_eq!(back, expected);
}

#[test]
fn push_request_keeps_entry_order() {
    let mut snappy = snap::raw::Encoder::new();
    let mut buf = Vec::new();
    let mut entries: Vec<(i64, String)> = (0..8).map(|i| (1_600_000_000 + i, format!("entry {}", i))).collect();
    let mut serialized = Vec::new();
    encode_push_request(&entries, &mut serialized);
    let out = create_push_request(&mut snappy, &mut buf, &mut entries).unwrap();
    assert!(buf.is_empty());
    let back = snap::raw::Decoder::new().decompress_vec(&out).unwrap();
    assert_eq!(back, serialized);
    let text = String::from_utf8_lossy(&serialized);
    let positions: Vec<usize> = (0..8).map(|i| text.find(&format!("entry {}", i)).unwrap()).collect();
    assert!(positions.windows(2).all(|w| w[0] < w[1]));
}

#[test]
fn tail_steps() {
    assert_eq!(after_read(Some(10)), TailAction::Process);
    assert_eq!(after_read(Some(0)), TailAction::Wait);
    assert_eq!(after_read(None), TailAction::Backoff);
    assert_eq!(after_notice(Some(ModifyType::Data)), TailAction::Read);
    assert_eq!(after_notice(Some(ModifyType::Rotate)), TailAction::Reopen);
    assert_eq!(after_notice(None), TailAction::Backoff);
}

#[test]
fn default_log_path() {
    assert_eq!(default_log_file(), "/var/log/messages");
}

#[test]
fn shipper_drops_unlisted_rules() {
    let shipper = iptables_to_loki::Shipper::new(firewall(&["WAN-IN-default-D"]), 8);
    assert!(shipper.select(LINE, 2021).is_none());
    let shipper = iptables_to_loki::Shipper::new(firewall(&["OUTSIDE-LOCAL-default-D"]), 8);
    let log = shipper.select(LINE, 2021).unwrap();
    assert_eq!(log.hostname, "vyos");
    assert!(shipper.select("not a log line", 2021).is_none());
}

#[test]
fn shipper_encodes_every_eighth_entry() {
    let mut shipper = iptables_to_loki::Shipper::new(firewall(&[]), 8);
    for round in 0..2 {
        for i in 0..7 {
            assert!(matches!(shipper.add(i, format!("r{} e{}", round, i)), Submitted::Pending));
        }
        let bytes = match shipper.add(7, format!("r{} e7", round)) {
            Submitted::Ready(b) => b,
            other => panic!("expected a full batch, got {:?}", other),
        };
        let raw = snap::raw::Decoder::new().decompress_vec(&bytes).unwrap();
        let text = String::from_utf8_lossy(&raw);
        for i in 0..8 {
            assert!(text.contains(&format!("r{} e{}", round, i)));
        }
    }
}

#[test]
fn push_status_classes() {
    assert!(iptables_to_loki::push_succeeded(200));
    assert!(iptables_to_loki::push_succeeded(204));
    assert!(!iptables_to_loki::push_succeeded(500));
    assert!(!iptables_to_loki::push_succeeded(199));
    assert!(!iptables_to_loki::push_succeeded(300));
}
