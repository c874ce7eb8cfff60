use chrono::Datelike;
use iptables_to_loki::{parse_date_time, parse_hostname, parse_log_line, Log};

const LINE: &str = "May 23 12:31:53 vyos kernel: [213370.255870] [OUTSIDE-LOCAL-default-D]IN=pppoe0 OUT= MAC= SRC=125.166.96.62 DST=80.80.80.80 LEN=143 TOS=0x00 PREC=0x00 TTL=110 ID=9398 PROTO=UDP SPT=1025 DPT=7140 LEN=123";

fn value<'a>(log: &'a Log, key: &str) -> Option<&'a str> {
    log.values.get(key).map(|v| v.as_str())
}

#[test]
fn test_parse_date_time() {
    let year = chrono::Utc::now().year();
    let (_, parsed) = parse_date_time("Apr 19 12:31:53", year).unwrap();
    let rendered = chrono::DateTime::from_timestamp(parsed.timestamp(), 0)
        .unwrap()
        .to_rfc3339();
    assert_eq!(rendered, format!("{}-04-19T12:31:53+00:00", year));
}

#[test]
fn test_parse_hostname() {
    let (_, parsed) = parse_hostname("vyos ignore the rest of this").unwrap();
    assert_eq!(parsed, "vyos");
}

#[test]
fn test_parse_log_line() {
    let (rest, parsed) = parse_log_line(LINE, 2021).unwrap();
    assert_eq!(parsed.time.hour(), 12);
    assert_eq!(parsed.hostname, "vyos");
    assert_eq!(parsed.rule, "OUTSIDE-LOCAL-default-D");
    assert_eq!(value(&parsed, "IN"), Some("pppoe0"));
    assert_eq!(value(&parsed, "MAC"), Some(""));
    assert_eq!(value(&parsed, "DST"), Some("80.80.80.80"));
    assert_eq!(rest, "");
}

#[test]
fn test_parse_ubnt_line() {
    let (rest, parsed) = parse_log_line("Aug  6 13:26:46 ubnt kernel: [WAN-IN-V6-default-D]IN=tun0 OUT=bond1 MAC=00:00 TUNNEL=224.61.82.50->81.81.82.82 SRC=240e:00f7:4f01:000c:0000:0000:0000:0002 DST=2a01:be30:3411:0330:0051:00ff:fe23:f991 LEN=64 TC=0 HOPLIMIT=241 FLOWLBL=0 PROTO=TCP SPT=8695 DPT=8086 WINDOW=29200 RES=0x00 SYN URGP=0", 2021).unwrap();
    assert_eq!(parsed.time.hour(), 13);
    assert_eq!(parsed.hostname, "ubnt");
    assert_eq!(parsed.rule, "WAN-IN-V6-default-D");
    assert_eq!(value(&parsed, "IN"), Some("tun0"));
    assert_eq!(value(&parsed, "MAC"), Some("00:00"));
    assert_eq!(value(&parsed, "TUNNEL"), Some("224.61.82.50->81.81.82.82"));
    assert_eq!(rest, "");
}

#[test]
fn later_duplicate_key_wins() {
    let (_, parsed) = parse_log_line(LINE, 2021).unwrap();
    assert_eq!(value(&parsed, "LEN"), Some("123"));
    assert_eq!(value(&parsed, "OUT"), Some(""));
    assert_eq!(value(&parsed, "NOPE"), None);
}

#[test]
fn date_fields_and_timestamp() {
    let (rest, t) = parse_date_time("May 15 00:00:00 host", 2015).unwrap();
    assert_eq!(rest, " host");
    assert_eq!((t.year, t.month, t.day, t.hour, t.minute, t.second), (2015, 5, 15, 0, 0, 0));
    assert_eq!(t.timestamp(), 1431648000);
}

#[test]
fn space_padded_day() {
    let (_, t) = parse_date_time("Aug  6 13:26:46", 2021).unwrap();
    assert_eq!(t.day, 6);
}

#[test]
fn unknown_month_is_rejected() {
    let line = LINE.replacen("May", "Mai", 1);
    assert!(parse_log_line(&line, 2021).is_none());
    assert!(parse_date_time("may 23 12:31:53", 2021).is_none());
}

#[test]
fn non_numeric_fields_are_rejected() {
    assert!(parse_date_time("May 2x 12:31:53", 2021).is_none());
    assert!(parse_date_time("May 23 1a:31:53", 2021).is_none());
    assert!(parse_date_time("May 23 12:3.:53", 2021).is_none());
    assert!(parse_date_time("May 23 12:31:  ", 2021).is_none());
    assert!(parse_log_line(&LINE.replacen("12:31:53", "12:31:5x", 1), 2021).is_none());
}

#[test]
fn impossible_dates_are_rejected() {
    assert!(parse_date_time("Feb 30 12:31:53", 2021).is_none());
    assert!(parse_date_time("Feb 29 12:31:53", 2021).is_none());
    assert!(parse_date_time("Feb 29 12:31:53", 2024).is_some());
    assert!(parse_date_time("May 23 24:00:00", 2021).is_none());
}

#[test]
fn missing_kernel_tag_is_rejected() {
    let line = LINE.replacen(" kernel: ", " kern: ", 1);
    assert!(parse_log_line(&line, 2021).is_none());
}

#[test]
fn unterminated_brackets_are_rejected() {
    assert!(parse_log_line("May 23 12:31:53 vyos kernel: [RULE IN=eth0", 2021).is_none());
    assert!(parse_log_line("May 23 12:31:53 vyos kernel: [1.5] RULE]IN=eth0", 2021).is_none());
    assert!(parse_log_line("May 23 12:31:53 vyos kernel: []IN=eth0", 2021).is_none());
}

#[test]
fn uptime_is_optional() {
    let (rest, parsed) = parse_log_line("May 23 12:31:53 gw kernel: [R1]A=1 B=", 2021).unwrap();
    assert_eq!(parsed.rule, "R1");
    assert_eq!(value(&parsed, "A"), Some("1"));
    assert_eq!(value(&parsed, "B"), Some(""));
    assert_eq!(rest, "");
}

#[test]
fn trailing_text_without_pair_is_left_over() {
    let (rest, parsed) = parse_log_line("May 23 12:31:53 gw kernel: [R1]A=1 tail", 2021).unwrap();
    assert_eq!(value(&parsed, "A"), Some("1"));
    assert_eq!(rest, " tail");
}

#[test]
fn hostname_needs_a_space() {
    assert!(parse_hostname("vyos").is_none());
}

#[test]
fn digit_only_rule_without_uptime() {
    let (rest, parsed) = parse_log_line("May 23 12:31:53 vyos kernel: [123.45]IN=eth0", 2021).unwrap();
    assert_eq!(parsed.rule, "123.45");
    assert_eq!(value(&parsed, "IN"), Some("eth0"));
    assert_eq!(rest, "");
    let (_, parsed) = parse_log_line("May 23 12:31:53 vyos kernel: [7]A=1 B=2", 2021).unwrap();
    assert_eq!(parsed.rule, "7");
    assert_eq!(value(&parsed, "B"), Some("2"));
}

#[test]
fn uptime_needs_its_space() {
    let (_, parsed) = parse_log_line("May 23 12:31:53 vyos kernel: [1.5] [7]A=1", 2021).unwrap();
    assert_eq!(parsed.rule, "7");
    assert!(parse_log_line("May 23 12:31:53 vyos kernel:  [R]A=1", 2021).is_none());
}

#[test]
fn fields_take_two_digits() {
    assert!(parse_date_time("May 23 12:31:5 ", 2021).is_none());
    assert!(parse_date_time("May 23 12: 1:53", 2021).is_none());
    assert!(parse_date_time("May 23 12:+1:53", 2021).is_none());
    assert!(parse_date_time("May 6  12:31:53", 2021).is_none());
    assert!(parse_log_line("May 23 12:31:5  vyos kernel: [R]A=1", 2021).is_none());
}
