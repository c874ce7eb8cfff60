use vstd::prelude::*;
use vstd::string::*;

use crate::geo::{enrich, enrich_view, opt_view, AsnRecord, CityRecord, CountryRecord, GeoInfo, GeoView};
use crate::parser::{is_digit, digit_value, Log};

verus! {

/// The value of a run of decimal digits.
pub open spec fn decimal_value(ds: Seq<char>) -> nat
    decreases ds.len(),
{
    if ds.len() == 0 {
        0
    } else {
        decimal_value(ds.drop_last()) * 10 + digit_value(ds.last()) as nat
    }
}

pub open spec fn all_digits(ds: Seq<char>) -> bool {
    forall|i: int| 0 <= i < ds.len() ==> is_digit(#[trigger] ds[i])
}

/// A port number in decimal, with an optional leading `+`, as `u16` reads it.
pub open spec fn port_value(s: Seq<char>) -> Option<u16> {
    let ds = if s.len() > 0 && s[0] == '+' { s.drop_first() } else { s };
    if ds.len() > 0 && all_digits(ds) && decimal_value(ds) <= 65535 {
        Some(decimal_value(ds) as u16)
    } else {
        None
    }
}

/// Reads a port number: decimal digits after an optional `+`, at most 65535.
pub fn parse_port(s: &str) -> (r: Option<u16>)
    ensures
        r == port_value(s@),
{
    let n = s.unicode_len();
    let mut i: usize = 0;
    if n > 0 && s.get_char(0) == '+' {
        i = 1;
    }
    let start = i;
    let ghost ds = if s@.len() > 0 && s@[0] == '+' { s@.drop_first() } else { s@ };
    assert(ds =~= s@.subrange(start as int, n as int));
    if start == n {
        return None;
    }
    let mut v: u32 = 0;
    while i < n
        invariant
            n == s@.len(),
            start <= i <= n,
            ds =~= s@.subrange(start as int, n as int),
            ds == (if s@.len() > 0 && s@[0] == '+' { s@.drop_first() } else { s@ }),
            all_digits(ds.take(i - start)),
            v as nat == if decimal_value(ds.take(i - start)) > 65535 { 65536 } else { decimal_value(ds.take(i - start)) },
        decreases n - i,
    {
        let c = s.get_char(i);
        assert(ds[i - start] == c);
        if !('0' <= c && c <= '9') {
            assert(!is_digit(ds[i - start]));
            assert(!all_digits(ds));
            return None;
        }
        let ghost prev = ds.take(i - start);
        let ghost next = ds.take(i + 1 - start);
        assert(next.drop_last() =~= prev);
        assert(next.last() == c);
        let d = c as u32 - '0' as u32;
        if v >= 65536 {
            v = 65536;
        } else {
            v = v * 10 + d;
            if v > 65536 {
                v = 65536;
            }
        }
        i = i + 1;
        assert(all_digits(next));
    }
    assert(ds.take(n - start) =~= ds);
    if v > 65535 {
        None
    } else {
        Some(v as u16)
    }
}

pub open spec fn digit_char(d: nat) -> char {
    if d == 0 { '0' } else if d == 1 { '1' } else if d == 2 { '2' } else if d == 3 { '3' }
    else if d == 4 { '4' } else if d == 5 { '5' } else if d == 6 { '6' } else if d == 7 { '7' }
    else if d == 8 { '8' } else { '9' }
}

/// The decimal text of `n`, without leading zeros.
pub open spec fn decimal_text(n: nat) -> Seq<char>
    decreases n,
{
    if n < 10 {
        seq![digit_char(n)]
    } else {
        decimal_text(n / 10) + seq![digit_char(n % 10)]
    }
}

fn digit_str(d: u64) -> (r: &'static str)
    requires
        d < 10,
    ensures
        r@ == seq![digit_char(d as nat)],
{
    proof {
        reveal_strlit("0"); reveal_strlit("1"); reveal_strlit("2"); reveal_strlit("3");
        reveal_strlit("4"); reveal_strlit("5"); reveal_strlit("6"); reveal_strlit("7");
        reveal_strlit("8"); reveal_strlit("9");
    }
    let r = if d == 0 { "0" } else if d == 1 { "1" } else if d == 2 { "2" } else if d == 3 { "3" }
    else if d == 4 { "4" } else if d == 5 { "5" } else if d == 6 { "6" } else if d == 7 { "7" }
    else if d == 8 { "8" } else { "9" };
    assert(r@ =~= seq![digit_char(d as nat)]);
    r
}

/// Writes `n` in decimal.
pub fn decimal_string(n: u64) -> (r: String)
    ensures
        r@ == decimal_text(n as nat),
    decreases n,
{
    if n < 10 {
        String::from_str(digit_str(n))
    } else {
        let head = decimal_string(n / 10);
        head.concat(digit_str(n % 10))
    }
}

/// `key="value"`.
pub open spec fn quoted_field(key: Seq<char>, value: Seq<char>) -> Seq<char> {
    key + "=\""@ + value + "\""@
}

pub open spec fn or_empty(o: Option<Seq<char>>) -> Seq<char> {
    match o {
        Some(v) => v,
        None => Seq::empty(),
    }
}

/// Absent coordinates read as zero.
pub open spec fn or_zero(o: Option<Seq<char>>) -> Seq<char> {
    match o {
        Some(v) => v,
        None => seq!['0'],
    }
}

/// Why a parsed line cannot become an entry.
#[derive(Debug, Clone, Copy, PartialEq, Eq, Structural)]
pub enum EntryError {
    /// `SRC` is missing or not an address.
    Src,
    /// `SPT` is missing or not a port.
    SrcPort,
    /// `DST` is missing or not an address.
    Dst,
    /// `DPT` is missing or not a port.
    DstPort,
}

/// A firewall event ready to be rendered: the parsed line's fields, its
/// addresses and ports, and the source address's geolocation.
#[derive(Debug, Clone)]
pub struct FirewallEntry {
    pub hostname: String,
    pub rule: String,
    pub interface: String,
    pub mac: String,
    pub src: String,
    pub src_port: u16,
    pub dst: String,
    pub dst_port: u16,
    pub proto: String,
    pub geo: GeoInfo,
}

pub open spec fn value_or_empty(log: Log, key: Seq<char>) -> Seq<char> {
    if log.values.view().contains_key(key) { log.values.view()[key] } else { Seq::empty() }
}

/// The line that `render` writes for `e`.
pub open spec fn rendered(e: FirewallEntry) -> Seq<char> {
    let g = e.geo.view();
    Seq::<char>::empty() + quoted_field("hostname"@, e.hostname@) + " "@
        + quoted_field("rule"@, e.rule@) + " "@
        + quoted_field("interface"@, e.interface@) + " "@
        + quoted_field("mac"@, e.mac@) + " "@
        + quoted_field("src"@, e.src@) + " "@
        + quoted_field("src_port"@, decimal_text(e.src_port as nat)) + " "@
        + quoted_field("dst"@, e.dst@) + " "@
        + quoted_field("dst_port"@, decimal_text(e.dst_port as nat)) + " "@
        + quoted_field("proto"@, e.proto@) + " "@
        + quoted_field("asn"@, decimal_text(match g.asn { Some(n) => n as nat, None => 0 })) + " "@
        + quoted_field("asn_org"@, or_empty(g.asn_org)) + " "@
        + quoted_field("city"@, or_empty(g.city)) + " "@
        + quoted_field("country_code"@, or_empty(g.country_code)) + " "@
        + quoted_field("country"@, or_empty(g.country)) + " "@
        + quoted_field("lat"@, or_zero(g.lat)) + " "@
        + quoted_field("lng"@, or_zero(g.lng))
}

fn put_field(out: &mut String, key: &str, value: &str)
    ensures
        final(out)@ == old(out)@ + quoted_field(key@, value@),
{
    out.append(key);
    out.append("=\"");
    out.append(value);
    out.append("\"");
    assert(out@ =~= old(out)@ + quoted_field(key@, value@));
}

fn str_or_empty(o: &Option<String>) -> (r: String)
    ensures
        r@ == or_empty(opt_view(*o)),
{
    match o {
        Some(s) => s.clone(),
        None => String::new(),
    }
}

fn str_or_zero(o: &Option<String>) -> (r: String)
    ensures
        r@ == or_zero(opt_view(*o)),
{
    match o {
        Some(s) => s.clone(),
        None => decimal_string(0),
    }
}

impl FirewallEntry {
    /// Builds the entry for `log`. `src` and `dst` are the addresses in
    /// `SRC` and `DST` in their canonical text, `None` where the field is
    /// missing or holds no address; the ports are read from `SPT` and `DPT`.
    pub fn from(
        log: &Log,
        src: Option<String>,
        dst: Option<String>,
        city: Option<&CityRecord>,
        country: Option<&CountryRecord>,
        asn: Option<&AsnRecord>,
    ) -> (r: Result<FirewallEntry, EntryError>)
        ensures
            r matches Err(e) ==> (e == EntryError::Src <==> src is None),
            r matches Err(e) ==> (e == EntryError::SrcPort <==> src is Some
                && port_value(value_or_empty(*log, "SPT"@)) is None),
            r matches Err(e) ==> (e == EntryError::Dst <==> src is Some
                && port_value(value_or_empty(*log, "SPT"@)) is Some && dst is None),
            r is Ok <==> (src is Some && dst is Some
                && port_value(value_or_empty(*log, "SPT"@)) is Some
                && port_value(value_or_empty(*log, "DPT"@)) is Some),
            r matches Ok(e) ==> {
                &&& e.hostname@ == log.hostname@
                &&& e.rule@ == log.rule@
                &&& e.interface@ == value_or_empty(*log, "IN"@)
                &&& e.mac@ == value_or_empty(*log, "MAC"@)
                &&& e.src@ == src->0@
                &&& Some(e.src_port) == port_value(value_or_empty(*log, "SPT"@))
                &&& e.dst@ == dst->0@
                &&& Some(e.dst_port) == port_value(value_or_empty(*log, "DPT"@))
                &&& e.proto@ == value_or_empty(*log, "PROTO"@)
                &&& e.geo.view() == enrich_view(
                    match asn { Some(a) => Some(*a), None => None },
                    match city { Some(c) => Some(*c), None => None },
                    match country { Some(c) => Some(*c), None => None },
                )
            },
    {
        let interface = log.values.get_or_empty("IN");
        let mac = log.values.get_or_empty("MAC");
        let src = match src {
            Some(a) => a,
            None => return Err(EntryError::Src),
        };
        let src_port = match parse_port(log.values.get_or_empty("SPT").as_str()) {
            Some(p) => p,
            None => return Err(EntryError::SrcPort),
        };
        let dst = match dst {
            Some(a) => a,
            None => return Err(EntryError::Dst),
        };
        let dst_port = match parse_port(log.values.get_or_empty("DPT").as_str()) {
            Some(p) => p,
            None => return Err(EntryError::DstPort),
        };
        let proto = log.values.get_or_empty("PROTO");
        Ok(FirewallEntry {
            hostname: log.hostname.clone(),
            rule: log.rule.clone(),
            interface,
            mac,
            src,
            src_port,
            dst,
            dst_port,
            proto,
            geo: enrich(asn, city, country),
        })
    }

    /// The entry as one line of quoted `key="value"` pairs in a fixed order.
    /// An absent ASN reads as 0, absent coordinates as 0 and other absent
    /// values as empty.
    pub fn render(&self) -> (r: String)
        ensures
            r@ == rendered(*self),
    {
        let g = &self.geo;
        let mut out = String::new();
        put_field(&mut out, "hostname", self.hostname.as_str());
        out.append(" ");
        put_field(&mut out, "rule", self.rule.as_str());
        out.append(" ");
        put_field(&mut out, "interface", self.interface.as_str());
        out.append(" ");
        put_field(&mut out, "mac", self.mac.as_str());
        out.append(" ");
        put_field(&mut out, "src", self.src.as_str());
        out.append(" ");
        put_field(&mut out, "src_port", decimal_string(self.src_port as u64).as_str());
        out.append(" ");
        put_field(&mut out, "dst", self.dst.as_str());
        out.append(" ");
        put_field(&mut out, "dst_port", decimal_string(self.dst_port as u64).as_str());
        out.append(" ");
        put_field(&mut out, "proto", self.proto.as_str());
        out.append(" ");
        let asn: u64 = match g.asn { Some(n) => n as u64, None => 0 };
        put_field(&mut out, "asn", decimal_string(asn).as_str());
        out.append(" ");
        put_field(&mut out, "asn_org", str_or_empty(&g.asn_org).as_str());
        out.append(" ");
        put_field(&mut out, "city", str_or_empty(&g.city).as_str());
        out.append(" ");
        put_field(&mut out, "country_code", str_or_empty(&g.country_code).as_str());
        out.append(" ");
        put_field(&mut out, "country", str_or_empty(&g.country).as_str());
        out.append(" ");
        put_field(&mut out, "lat", str_or_zero(&g.lat).as_str());
        out.append(" ");
        put_field(&mut out, "lng", str_or_zero(&g.lng).as_str());
        out
    }
}

} // verus!
