use vstd::prelude::*;
use vstd::string::*;

use crate::fields::{lemma_pairs_to_map, pair_view, pairs_to_map, Fields};
use crate::time::{civil_valid, utc_seconds, LogTime};

verus! {

pub open spec fn is_digit(c: char) -> bool {
    '0' <= c && c <= '9'
}

pub open spec fn digit_value(c: char) -> u32 {
    (c as u32 - '0' as u32) as u32
}

/// A two-character numeric field: exactly two digits.
pub open spec fn two_digit_value(a: char, b: char) -> Option<u32> {
    if is_digit(a) && is_digit(b) {
        Some((10 * digit_value(a) + digit_value(b)) as u32)
    } else {
        None
    }
}

/// The day of the month: two digits, or a space and one digit (`Aug  6`).
pub open spec fn day_value(a: char, b: char) -> Option<u32> {
    if a == ' ' && is_digit(b) {
        Some(digit_value(b))
    } else {
        two_digit_value(a, b)
    }
}

/// The number of a three-letter English month abbreviation, or 0.
pub open spec fn month_number(m: Seq<char>) -> u32 {
    if m == seq!['J', 'a', 'n'] { 1 }
    else if m == seq!['F', 'e', 'b'] { 2 }
    else if m == seq!['M', 'a', 'r'] { 3 }
    else if m == seq!['A', 'p', 'r'] { 4 }
    else if m == seq!['M', 'a', 'y'] { 5 }
    else if m == seq!['J', 'u', 'n'] { 6 }
    else if m == seq!['J', 'u', 'l'] { 7 }
    else if m == seq!['A', 'u', 'g'] { 8 }
    else if m == seq!['S', 'e', 'p'] { 9 }
    else if m == seq!['O', 'c', 't'] { 10 }
    else if m == seq!['N', 'o', 'v'] { 11 }
    else if m == seq!['D', 'e', 'c'] { 12 }
    else { 0 }
}

/// `MMM DD HH:MM:SS` at the start of `s`: a known month and four numeric fields.
pub open spec fn date_time_ok(s: Seq<char>) -> bool {
    &&& s.len() >= 15
    &&& month_number(s.take(3)) != 0
    &&& s[3] == ' '
    &&& day_value(s[4], s[5]) is Some
    &&& s[6] == ' '
    &&& two_digit_value(s[7], s[8]) is Some
    &&& s[9] == ':'
    &&& two_digit_value(s[10], s[11]) is Some
    &&& s[12] == ':'
    &&& two_digit_value(s[13], s[14]) is Some
}

pub open spec fn field_month(s: Seq<char>) -> u32 { month_number(s.take(3)) }
pub open spec fn field_day(s: Seq<char>) -> u32 { day_value(s[4], s[5])->0 }
pub open spec fn field_hour(s: Seq<char>) -> u32 { two_digit_value(s[7], s[8])->0 }
pub open spec fn field_minute(s: Seq<char>) -> u32 { two_digit_value(s[10], s[11])->0 }
pub open spec fn field_second(s: Seq<char>) -> u32 { two_digit_value(s[13], s[14])->0 }

/// The date and time written at the start of `s` exist in `year`.
pub open spec fn date_time_valid(s: Seq<char>, year: i32) -> bool {
    &&& date_time_ok(s)
    &&& civil_valid(year, field_month(s), field_day(s), field_hour(s), field_minute(s), field_second(s))
}

/// `t` is the time written at the start of `s`, in `year`.
pub open spec fn time_of(s: Seq<char>, year: i32, t: LogTime) -> bool {
    &&& t.year == year
    &&& t.month == field_month(s)
    &&& t.day == field_day(s)
    &&& t.hour == field_hour(s)
    &&& t.minute == field_minute(s)
    &&& t.second == field_second(s)
    &&& t.timestamp == utc_seconds(year, t.month, t.day, t.hour, t.minute, t.second)
}

/// The first index at or after `from` that holds `c`, or `s.len()`.
pub open spec fn find_from(s: Seq<char>, from: int, c: char) -> int
    decreases s.len() - from,
{
    if from < 0 || from >= s.len() {
        s.len() as int
    } else if s[from] == c {
        from
    } else {
        find_from(s, from + 1, c)
    }
}

pub proof fn lemma_find_from_bounds(s: Seq<char>, from: int, c: char)
    requires
        0 <= from,
    ensures
        from <= find_from(s, from, c) <= s.len() || (from > s.len() && find_from(s, from, c) == s.len()),
    decreases s.len() - from,
{
    if from < s.len() && s[from] != c {
        lemma_find_from_bounds(s, from + 1, c);
    }
}

/// One key/value step from `p` moves strictly forward.
proof fn lemma_kv_step(s: Seq<char>, p: int)
    ensures
        p >= 0 && find_from(s, p, '=') < s.len() ==> p < find_from(s, find_from(s, p, '=') + 1, ' ') + 1,
{
    if p >= 0 {
        lemma_find_from_bounds(s, p, '=');
        let eq = find_from(s, p, '=');
        if eq < s.len() {
            lemma_find_from_bounds(s, eq + 1, ' ');
        }
    }
}

#[via_fn]
proof fn kv_pairs_decreases(s: Seq<char>, p: int) {
    lemma_kv_step(s, p);
}

#[via_fn]
proof fn kv_end_decreases(s: Seq<char>, p: int) {
    lemma_kv_step(s, p);
}

pub open spec fn is_uptime_char(c: char) -> bool {
    is_digit(c) || c == '.'
}

/// The first index at or after `from` that holds no digit and no dot, or `s.len()`.
pub open spec fn uptime_run_end(s: Seq<char>, from: int) -> int
    decreases s.len() - from,
{
    if from < 0 || from >= s.len() {
        s.len() as int
    } else if !is_uptime_char(s[from]) {
        from
    } else {
        uptime_run_end(s, from + 1)
    }
}

pub open spec fn kernel_tag() -> Seq<char> {
    seq![' ', 'k', 'e', 'r', 'n', 'e', 'l', ':', ' ']
}

/// Where the hostname, which starts at 16, ends: at the next space.
pub open spec fn host_end(s: Seq<char>) -> int {
    find_from(s, 16, ' ')
}

/// Past an optional `[uptime] ` (digits and dots, then a space) at `p`.
pub open spec fn after_uptime(s: Seq<char>, p: int) -> int {
    let q = uptime_run_end(s, p + 1);
    if p < s.len() && s[p] == '[' && q > p + 1 && q + 1 < s.len() && s[q] == ']' && s[q + 1] == ' ' {
        q + 2
    } else {
        p
    }
}

/// Where the bracketed rule name starts: after `" kernel: "` and the
/// optional uptime.
pub open spec fn rule_open(s: Seq<char>) -> int {
    after_uptime(s, host_end(s) + 9)
}

pub open spec fn rule_close(s: Seq<char>) -> int {
    find_from(s, rule_open(s) + 1, ']')
}

/// `s` follows the line grammar up to and including the rule name.
pub open spec fn line_shape_ok(s: Seq<char>) -> bool {
    let h = host_end(s);
    let r = rule_open(s);
    &&& date_time_ok(s)
    &&& s.len() >= 16
    &&& s[15] == ' '
    &&& h < s.len()
    &&& h + 9 <= s.len()
    &&& s.subrange(h, h + 9) == kernel_tag()
    &&& r < s.len()
    &&& s[r] == '['
    &&& rule_close(s) < s.len()
    &&& rule_close(s) > r + 1
}

/// The key/value pairs from `p` on: a key runs to the next `=`, its value
/// to the next space; pairs are separated by one space.
pub open spec fn kv_pairs(s: Seq<char>, p: int) -> Seq<(Seq<char>, Seq<char>)>
    decreases s.len() - p via kv_pairs_decreases
{
    let eq = find_from(s, p, '=');
    let ve = find_from(s, eq + 1, ' ');
    if p < 0 || eq >= s.len() {
        Seq::empty()
    } else if ve < s.len() {
        seq![(s.subrange(p, eq), s.subrange(eq + 1, ve))] + kv_pairs(s, ve + 1)
    } else {
        seq![(s.subrange(p, eq), s.subrange(eq + 1, ve))]
    }
}

/// Where reading key/value pairs from `p` stops: before a separator that
/// no pair follows.
pub open spec fn kv_end(s: Seq<char>, p: int) -> int
    decreases s.len() - p via kv_end_decreases
{
    let eq = find_from(s, p, '=');
    let ve = find_from(s, eq + 1, ' ');
    if p < 0 || eq >= s.len() {
        p
    } else if ve >= s.len() {
        s.len() as int
    } else if find_from(s, ve + 1, '=') >= s.len() {
        ve
    } else {
        kv_end(s, ve + 1)
    }
}

/// `s` is a firewall log line whose date and time exist in `year`.
pub open spec fn line_accepted(s: Seq<char>, year: i32) -> bool {
    line_shape_ok(s) && date_time_valid(s, year)
}

/// One parsed kernel firewall log line.
#[derive(Debug, Clone)]
pub struct Log {
    pub hostname: String,
    pub time: LogTime,
    pub rule: String,
    pub values: Fields,
}

/// The characters of `s`, one per element.
fn chars_of(s: &str) -> (r: Vec<char>)
    ensures
        r@ == s@,
{
    let n = s.unicode_len();
    let mut v: Vec<char> = Vec::new();
    let mut i: usize = 0;
    while i < n
        invariant
            n == s@.len(),
            i <= n,
            v@ == s@.take(i as int),
        decreases n - i,
    {
        v.push(s.get_char(i));
        i = i + 1;
        assert(v@ =~= s@.take(i as int));
    }
    assert(s@.take(n as int) =~= s@);
    v
}

fn find_char(s: &Vec<char>, from: usize, c: char) -> (r: usize)
    requires
        from <= s.len(),
    ensures
        r == find_from(s@, from as int, c),
        from <= r <= s.len(),
{
    let mut i = from;
    while i < s.len()
        invariant
            from <= i <= s.len(),
            find_from(s@, from as int, c) == find_from(s@, i as int, c),
        decreases s.len() - i,
    {
        if s[i] == c {
            return i;
        }
        i = i + 1;
    }
    i
}

fn uptime_end(s: &Vec<char>, from: usize) -> (r: usize)
    requires
        from <= s.len(),
    ensures
        r == uptime_run_end(s@, from as int),
        from <= r <= s.len(),
{
    let mut i = from;
    while i < s.len()
        invariant
            from <= i <= s.len(),
            uptime_run_end(s@, from as int) == uptime_run_end(s@, i as int),
        decreases s.len() - i,
    {
        let c = s[i];
        if !(('0' <= c && c <= '9') || c == '.') {
            return i;
        }
        i = i + 1;
    }
    i
}

fn digit(c: char) -> (r: Option<u32>)
    ensures
        r is Some <==> is_digit(c),
        r matches Some(v) ==> v == digit_value(c),
{
    if '0' <= c && c <= '9' {
        Some(c as u32 - '0' as u32)
    } else {
        None
    }
}

fn two_digits(a: char, b: char) -> (r: Option<u32>)
    ensures
        r == two_digit_value(a, b),
{
    match (digit(a), digit(b)) {
        (Some(x), Some(y)) => Some(10 * x + y),
        _ => None,
    }
}

fn day_digits(a: char, b: char) -> (r: Option<u32>)
    ensures
        r == day_value(a, b),
{
    match (a, digit(b)) {
        (' ', Some(y)) => Some(y),
        _ => two_digits(a, b),
    }
}

fn month(a: char, b: char, c: char) -> (r: u32)
    ensures
        r == month_number(seq![a, b, c]),
{
    if a == 'J' && b == 'a' && c == 'n' { 1 }
    else if a == 'F' && b == 'e' && c == 'b' { 2 }
    else if a == 'M' && b == 'a' && c == 'r' { 3 }
    else if a == 'A' && b == 'p' && c == 'r' { 4 }
    else if a == 'M' && b == 'a' && c == 'y' { 5 }
    else if a == 'J' && b == 'u' && c == 'n' { 6 }
    else if a == 'J' && b == 'u' && c == 'l' { 7 }
    else if a == 'A' && b == 'u' && c == 'g' { 8 }
    else if a == 'S' && b == 'e' && c == 'p' { 9 }
    else if a == 'O' && b == 'c' && c == 't' { 10 }
    else if a == 'N' && b == 'o' && c == 'v' { 11 }
    else if a == 'D' && b == 'e' && c == 'c' { 12 }
    else { 0 }
}

fn date_time_at_start(s: &Vec<char>, year: i32) -> (r: Option<LogTime>)
    ensures
        r is Some <==> date_time_valid(s@, year),
        r matches Some(t) ==> t.wf() && time_of(s@, year, t),
{
    if s.len() < 15 {
        return None;
    }
    assert(s@.take(3) =~= seq![s@[0], s@[1], s@[2]]);
    let mo = month(s[0], s[1], s[2]);
    if mo == 0 || s[3] != ' ' || s[6] != ' ' || s[9] != ':' || s[12] != ':' {
        return None;
    }
    let day = match day_digits(s[4], s[5]) { Some(v) => v, None => return None };
    let hour = match two_digits(s[7], s[8]) { Some(v) => v, None => return None };
    let minute = match two_digits(s[10], s[11]) { Some(v) => v, None => return None };
    let second = match two_digits(s[13], s[14]) { Some(v) => v, None => return None };
    LogTime::new(year, mo, day, hour, minute, second)
}

fn substring(line: &str, from: usize, to: usize) -> (r: String)
    requires
        from <= to <= line@.len(),
    ensures
        r@ == line@.subrange(from as int, to as int),
{
    line.substring_char(from, to).to_owned()
}

fn parse_kvs(line: &str, s: &Vec<char>, start: usize) -> (r: (usize, Vec<(String, String)>))
    requires
        s@ == line@,
        start <= s.len(),
    ensures
        r.0 == kv_end(s@, start as int),
        r.0 <= s.len(),
        r.1@.map_values(|p: (String, String)| pair_view(p)) == kv_pairs(s@, start as int),
{
    let mut pairs: Vec<(String, String)> = Vec::new();
    let mut p: usize = start;
    let mut end: usize = start;
    loop
        invariant
            s@ == line@,
            start <= p <= s.len(),
            end <= s.len(),
            kv_pairs(s@, start as int) == pairs@.map_values(|p: (String, String)| pair_view(p))
                + kv_pairs(s@, p as int),
            kv_end(s@, start as int) == (if find_from(s@, p as int, '=') >= s.len() {
                end as int
            } else {
                kv_end(s@, p as int)
            }),
        decreases s.len() - p,
    {
        let eq = find_char(s, p, '=');
        if eq >= s.len() {
            assert(kv_pairs(s@, p as int) =~= Seq::empty());
            assert(pairs@.map_values(|p: (String, String)| pair_view(p)) + Seq::empty()
                =~= pairs@.map_values(|p: (String, String)| pair_view(p)));
            return (end, pairs);
        }
        let ve = find_char(s, eq + 1, ' ');
        let key = substring(line, p, eq);
        let value = substring(line, eq + 1, ve);
        let ghost before = pairs@;
        pairs.push((key, value));
        let ghost pv = (s@.subrange(p as int, eq as int), s@.subrange(eq + 1, ve as int));
        assert(pairs@.map_values(|p: (String, String)| pair_view(p))
            =~= before.map_values(|p: (String, String)| pair_view(p)) + seq![pv]);
        if ve >= s.len() {
            assert(kv_pairs(s@, p as int) == seq![pv]);
            assert(kv_pairs(s@, start as int) =~= pairs@.map_values(|p: (String, String)| pair_view(p)));
            return (s.len(), pairs);
        }
        assert(kv_pairs(s@, p as int) == seq![pv] + kv_pairs(s@, ve + 1));
        assert(kv_pairs(s@, start as int) =~= pairs@.map_values(|p: (String, String)| pair_view(p))
            + kv_pairs(s@, ve + 1));
        end = ve;
        p = ve + 1;
    }
}

/// Reads the date and time at the start of `i`; the year, which the text
/// does not hold, is `year`. Returns the text after them and the time.
pub fn parse_date_time(i: &str, year: i32) -> (r: Option<(String, LogTime)>)
    ensures
        r is Some <==> date_time_valid(i@, year),
        r matches Some((rest, t)) ==> rest@ == i@.subrange(15, i@.len() as int) && t.wf()
            && time_of(i@, year, t),
{
    let s = chars_of(i);
    match date_time_at_start(&s, year) {
        Some(t) => Some((substring(i, 15, s.len()), t)),
        None => None,
    }
}

/// Reads the text up to the first space. Returns the text from that space on
/// and the text before it; `None` where `i` holds no space.
pub fn parse_hostname(i: &str) -> (r: Option<(String, String)>)
    ensures
        r is Some <==> find_from(i@, 0, ' ') < i@.len(),
        r matches Some((rest, host)) ==> host@ == i@.subrange(0, find_from(i@, 0, ' '))
            && rest@ == i@.subrange(find_from(i@, 0, ' '), i@.len() as int),
{
    let s = chars_of(i);
    let h = find_char(&s, 0, ' ');
    if h >= s.len() {
        None
    } else {
        Some((substring(i, h, s.len()), substring(i, 0, h)))
    }
}

/// Parses one kernel firewall log line. The year, which the line does not
/// hold, is `year`. Returns the text that follows the key/value pairs and
/// the parsed line; `None` where the line does not follow the grammar or its
/// date does not exist.
pub fn parse_log_line(i: &str, year: i32) -> (r: Option<(String, Log)>)
    ensures
        r is Some <==> line_accepted(i@, year),
        r matches Some((rest, log)) ==> {
            &&& log.hostname@ == i@.subrange(16, host_end(i@))
            &&& log.rule@ == i@.subrange(rule_open(i@) + 1, rule_close(i@))
            &&& log.values.pair_seq() == kv_pairs(i@, rule_close(i@) + 1)
            &&& rest@ == i@.subrange(kv_end(i@, rule_close(i@) + 1), i@.len() as int)
            &&& log.time.wf()
            &&& time_of(i@, year, log.time)
        },
{
    let s = chars_of(i);
    let time = match date_time_at_start(&s, year) {
        Some(t) => t,
        None => return None,
    };
    if s.len() < 16 || s[15] != ' ' {
        return None;
    }
    let h = find_char(&s, 16, ' ');
    if h >= s.len() || s.len() - h < 9 {
        return None;
    }
    if !(s[h] == ' ' && s[h + 1] == 'k' && s[h + 2] == 'e' && s[h + 3] == 'r' && s[h + 4] == 'n'
        && s[h + 5] == 'e' && s[h + 6] == 'l' && s[h + 7] == ':' && s[h + 8] == ' ') {
        assert(s@.subrange(h as int, h + 9) != kernel_tag()) by {
            if s@.subrange(h as int, h + 9) == kernel_tag() {
                assert(s@.subrange(h as int, h + 9)[1] == 'k');
            }
        }
        return None;
    }
    assert(s@.subrange(h as int, h + 9) =~= kernel_tag());
    let p = h + 9;
    let mut q = p;
    if p < s.len() && s[p] == '[' {
        let e = uptime_end(&s, p + 1);
        if e > p + 1 && e < s.len() && e + 1 < s.len() && s[e] == ']' && s[e + 1] == ' ' {
            q = e + 2;
        }
    }
    assert(q == after_uptime(s@, p as int));
    let r = q;
    if r >= s.len() || s[r] != '[' {
        return None;
    }
    let c = find_char(&s, r + 1, ']');
    if c >= s.len() || c <= r + 1 {
        return None;
    }
    let hostname = substring(i, 16, h);
    let rule = substring(i, r + 1, c);
    let (end, pairs) = parse_kvs(i, &s, c + 1);
    let rest = substring(i, end, s.len());
    Some((rest, Log { hostname, time, rule, values: Fields { pairs } }))
}

/// `s` has no `c` from `from` up to `j`, and `c` at `j` unless `j` is the end.
pub proof fn lemma_find_at(s: Seq<char>, from: int, c: char, j: int)
    requires
        0 <= from <= j <= s.len(),
        j < s.len() ==> s[j] == c,
        forall|k: int| from <= k < j ==> s[k] != c,
    ensures
        find_from(s, from, c) == j,
    decreases j - from,
{
    if from < j {
        lemma_find_at(s, from + 1, c, j);
    }
}

pub proof fn lemma_uptime_run(s: Seq<char>, from: int)
    requires
        0 <= from <= s.len(),
    ensures
        from <= uptime_run_end(s, from) <= s.len(),
        uptime_run_end(s, from) < s.len() ==> !is_uptime_char(s[uptime_run_end(s, from)]),
        forall|k: int| from <= k < uptime_run_end(s, from) ==> is_uptime_char(s[k]),
    decreases s.len() - from,
{
    if from < s.len() && is_uptime_char(s[from]) {
        lemma_uptime_run(s, from + 1);
    }
}

/// `key=value`.
pub open spec fn pair_text(p: (Seq<char>, Seq<char>)) -> Seq<char> {
    p.0 + seq!['='] + p.1
}

/// The pairs written out, separated by single spaces.
pub open spec fn kv_text(pairs: Seq<(Seq<char>, Seq<char>)>) -> Seq<char>
    decreases pairs.len(),
{
    if pairs.len() == 0 {
        Seq::empty()
    } else if pairs.len() == 1 {
        pair_text(pairs[0])
    } else {
        pair_text(pairs[0]) + seq![' '] + kv_text(pairs.drop_first())
    }
}

/// Keys hold no `=` and no space; values hold no space.
pub open spec fn pairs_writable(pairs: Seq<(Seq<char>, Seq<char>)>) -> bool {
    forall|i: int, j: int|
        0 <= i < pairs.len() ==> {
            &&& (0 <= j < pairs[i].0.len() ==> pairs[i].0[j] != '=' && pairs[i].0[j] != ' ')
            &&& (0 <= j < pairs[i].1.len() ==> pairs[i].1[j] != ' ')
        }
}

/// The key/value section written out after any prefix reads back as the
/// same pairs, to the end of the text.
pub proof fn lemma_kv_round_trip(prefix: Seq<char>, pairs: Seq<(Seq<char>, Seq<char>)>)
    requires
        pairs_writable(pairs),
    ensures
        kv_pairs(prefix + kv_text(pairs), prefix.len() as int) == pairs,
        kv_end(prefix + kv_text(pairs), prefix.len() as int) == prefix.len() + kv_text(pairs).len(),
    decreases pairs.len(),
{
    let s = prefix + kv_text(pairs);
    let p = prefix.len() as int;
    if pairs.len() == 0 {
        lemma_find_at(s, p, '=', s.len() as int);
        assert(kv_pairs(s, p) =~= pairs);
    } else {
        let k = pairs[0].0;
        let v = pairs[0].1;
        let eq: int = p + k.len();
        let ve: int = eq + 1 + v.len();
        let rest = pairs.drop_first();
        assert(pairs_writable(rest)) by {
            assert forall|i: int, j: int| 0 <= i < rest.len() implies {
                &&& (0 <= j < rest[i].0.len() ==> rest[i].0[j] != '=' && rest[i].0[j] != ' ')
                &&& (0 <= j < rest[i].1.len() ==> rest[i].1[j] != ' ')
            } by {
                assert(rest[i] == pairs[i + 1]);
            }
        }
        let tail = if pairs.len() == 1 { Seq::<char>::empty() } else { seq![' '] + kv_text(rest) };
        assert(kv_text(pairs) =~= k + seq!['='] + v + tail);
        assert(s =~= prefix + k + seq!['='] + v + tail);
        assert forall|i: int| p <= i < eq implies s[i] != '=' by {
            assert(s[i] == k[i - p]);
            assert(pairs[0].0[i - p] != '=');
        }
        assert(s[eq] == '=');
        lemma_find_at(s, p, '=', eq);
        assert forall|i: int| eq + 1 <= i < ve implies s[i] != ' ' by {
            assert(s[i] == v[i - eq - 1]);
            assert(pairs[0].1[i - eq - 1] != ' ');
        }
        assert(s.subrange(p, eq) =~= k);
        assert(s.subrange(eq + 1, ve) =~= v);
        if pairs.len() == 1 {
            assert(ve == s.len());
            lemma_find_at(s, eq + 1, ' ', ve);
            assert(kv_pairs(s, p) =~= pairs);
        } else {
            assert(s[ve] == ' ');
            lemma_find_at(s, eq + 1, ' ', ve);
            let prefix2 = prefix + k + seq!['='] + v + seq![' '];
            assert(s =~= prefix2 + kv_text(rest));
            assert(prefix2.len() == ve + 1);
            lemma_kv_round_trip(prefix2, rest);
            assert(kv_pairs(s, p) == seq![(k, v)] + kv_pairs(s, ve + 1));
            assert(kv_pairs(s, p) =~= pairs);
            let k2 = rest[0].0;
            assert forall|i: int| ve + 1 <= i < ve + 1 + k2.len() implies s[i] != '=' by {
                assert(s[i] == (prefix2 + kv_text(rest))[i]);
                assert(kv_text(rest) =~= k2 + seq!['='] + rest[0].1 + (if rest.len() == 1 {
                    Seq::<char>::empty()
                } else {
                    seq![' '] + kv_text(rest.drop_first())
                }));
                assert(s[i] == k2[i - ve - 1]);
                assert(rest[0].0[i - ve - 1] != '=');
            }
            assert(kv_text(rest) =~= k2 + seq!['='] + rest[0].1 + (if rest.len() == 1 {
                Seq::<char>::empty()
            } else {
                seq![' '] + kv_text(rest.drop_first())
            }));
            assert(s[ve + 1 + k2.len()] == '=');
            lemma_find_at(s, ve + 1, '=', ve + 1 + k2.len());
        }
    }
}

/// The text written by `kv_text` never starts with a space.
proof fn lemma_kv_text_start(pairs: Seq<(Seq<char>, Seq<char>)>)
    requires
        pairs_writable(pairs),
        kv_text(pairs).len() > 0,
    ensures
        kv_text(pairs)[0] != ' ',
{
    let k = pairs[0].0;
    let tail = if pairs.len() == 1 { Seq::<char>::empty() } else { seq![' '] + kv_text(pairs.drop_first()) };
    assert(kv_text(pairs) =~= k + seq!['='] + pairs[0].1 + tail);
    if k.len() > 0 {
        assert(kv_text(pairs)[0] == k[0]);
        assert(pairs[0].0[0] != ' ');
    } else {
        assert(kv_text(pairs)[0] == '=');
    }
}

/// `[uptime] ` written at `p` is read as the uptime.
proof fn lemma_uptime_read(s: Seq<char>, p: int, u: Seq<char>)
    requires
        0 <= p,
        p + u.len() + 3 <= s.len(),
        u.len() > 0,
        forall|i: int| 0 <= i < u.len() ==> is_uptime_char(#[trigger] u[i]),
        s.subrange(p, p + u.len() + 3) == seq!['['] + u + seq![']', ' '],
    ensures
        after_uptime(s, p) == p + u.len() + 3,
{
    let w = seq!['['] + u + seq![']', ' '];
    assert(s[p] == w[0]);
    assert forall|i: int| p + 1 <= i < p + 1 + u.len() implies is_uptime_char(s[i]) by {
        assert(s[i] == w[i - p]);
        assert(w[i - p] == u[i - p - 1]);
    }
    assert(s[p + 1 + u.len()] == w[u.len() as int + 1]);
    assert(s[p + 2 + u.len()] == w[u.len() as int + 2]);
    lemma_uptime_run(s, p + 1);
    assert(uptime_run_end(s, p + 1) == p + 1 + u.len());
}

/// A bracket at `p` closed at `c` and followed by the key/value section is
/// not an uptime: either it holds something other than digits and dots, or
/// no space follows it.
proof fn lemma_rule_bracket_not_uptime(s: Seq<char>, p: int, c: int, pairs: Seq<(Seq<char>, Seq<char>)>)
    requires
        0 <= p,
        p + 1 < c < s.len(),
        s[p] == '[',
        s[c] == ']',
        forall|i: int| p + 1 <= i < c ==> s[i] != ']',
        s.subrange(c + 1, s.len() as int) == kv_text(pairs),
        pairs_writable(pairs),
    ensures
        after_uptime(s, p) == p,
{
    lemma_uptime_run(s, p + 1);
    let q = uptime_run_end(s, p + 1);
    if q == c && q + 1 < s.len() {
        lemma_kv_text_start(pairs);
        assert(s[c + 1] == kv_text(pairs)[0]);
    } else if q > c {
        assert(!is_uptime_char(s[c]));
    }
}

/// What a firewall log line looks like: date and time, hostname, the kernel
/// tag, an optional bracketed uptime, the bracketed rule and the pairs.
pub open spec fn line_text(
    date: Seq<char>,
    host: Seq<char>,
    uptime: Option<Seq<char>>,
    rule: Seq<char>,
    pairs: Seq<(Seq<char>, Seq<char>)>,
) -> Seq<char> {
    let up = match uptime {
        Some(u) => seq!['['] + u + seq![']', ' '],
        None => Seq::empty(),
    };
    date + seq![' '] + host + kernel_tag() + up + seq!['['] + rule + seq![']'] + kv_text(pairs)
}

/// A line written from its parts reads back as those parts: the date and
/// time, the hostname, the rule name and every key/value pair in order, so
/// that the fields map each key to its last value.
pub proof fn lemma_line_round_trip(
    date: Seq<char>,
    host: Seq<char>,
    uptime: Option<Seq<char>>,
    rule: Seq<char>,
    pairs: Seq<(Seq<char>, Seq<char>)>,
    year: i32,
)
    requires
        date.len() == 15,
        date_time_ok(date),
        forall|i: int| 0 <= i < host.len() ==> host[i] != ' ',
        uptime matches Some(u) ==> u.len() > 0 && forall|i: int| 0 <= i < u.len() ==> is_uptime_char(#[trigger] u[i]),
        rule.len() > 0,
        forall|i: int| 0 <= i < rule.len() ==> rule[i] != ']',
        pairs_writable(pairs),
    ensures
        ({
            let s = line_text(date, host, uptime, rule, pairs);
            &&& line_shape_ok(s)
            &&& line_accepted(s, year) == date_time_valid(date, year)
            &&& (forall|t: LogTime| time_of(s, year, t) == time_of(date, year, t))
            &&& s.subrange(16, host_end(s)) == host
            &&& s.subrange(rule_open(s) + 1, rule_close(s)) == rule
            &&& kv_pairs(s, rule_close(s) + 1) == pairs
            &&& pairs_to_map(kv_pairs(s, rule_close(s) + 1)) == pairs_to_map(pairs)
            &&& forall|k: Seq<char>| #[trigger] pairs_to_map(pairs).contains_key(k)
                <==> exists|i: int| 0 <= i < pairs.len() && pairs[i].0 == k
            &&& forall|j: int| #![trigger pairs[j]]
                0 <= j < pairs.len() && (forall|i: int| j < i < pairs.len() ==> pairs[i].0 != pairs[j].0)
                    ==> pairs_to_map(pairs)[pairs[j].0] == pairs[j].1
            &&& kv_end(s, rule_close(s) + 1) == s.len()
        }),
{
    let s = line_text(date, host, uptime, rule, pairs);
    let up = match uptime {
        Some(u) => seq!['['] + u + seq![']', ' '],
        None => Seq::<char>::empty(),
    };
    let h: int = 16 + host.len() as int;
    let p: int = h + 9;
    let r: int = p + up.len();
    let c: int = r + 1 + rule.len();
    let head = date + seq![' '] + host + kernel_tag() + up + seq!['['] + rule + seq![']'];
    assert(s == head + kv_text(pairs));
    assert(head.len() == c + 1);
    assert(s.take(15) =~= date);
    assert(s.take(3) =~= date.take(3));
    assert forall|i: int| 0 <= i < 15 implies s[i] == date[i] by {
        assert(s.take(15)[i] == s[i]);
    }
    assert(s[15] == ' ');
    assert forall|i: int| 16 <= i < h implies s[i] != ' ' by {
        assert(s[i] == host[i - 16]);
    }
    assert(s.subrange(h, h + 9) =~= kernel_tag());
    assert(s[h] == ' ');
    lemma_find_at(s, 16, ' ', h);
    assert(s.subrange(16, h) =~= host);
    assert forall|i: int| r + 1 <= i < c implies s[i] == rule[i - r - 1] by {}
    assert(s[r] == '[');
    assert(s[c] == ']');
    match uptime {
        Some(u) => {
            assert(s.subrange(p, r) =~= seq!['['] + u + seq![']', ' ']);
            lemma_uptime_read(s, p, u);
        }
        None => {
            assert(r == p);
            assert forall|i: int| p + 1 <= i < c implies s[i] != ']' by {
                assert(s[i] == rule[i - r - 1]);
            }
            assert(s.subrange(c + 1, s.len() as int) =~= kv_text(pairs));
            lemma_rule_bracket_not_uptime(s, p, c, pairs);
        }
    }
    assert(rule_open(s) == r);
    lemma_find_at(s, r + 1, ']', c);
    assert(s.subrange(r + 1, c) =~= rule);
    lemma_kv_round_trip(head, pairs);
    lemma_pairs_to_map(pairs);
}

/// A line that ends inside its date and time, whose month is not a known
/// abbreviation, or whose day, hour, minute or second field is not numeric,
/// is not accepted, whatever the year.
pub proof fn lemma_bad_date_rejected(s: Seq<char>, year: i32)
    requires
        s.len() < 15 || month_number(s.take(3)) == 0
            || day_value(s[4], s[5]) is None
            || two_digit_value(s[7], s[8]) is None
            || two_digit_value(s[10], s[11]) is None
            || two_digit_value(s[13], s[14]) is None,
    ensures
        !line_accepted(s, year),
        !date_time_valid(s, year),
{
}

} // verus!
