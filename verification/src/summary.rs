use vstd::prelude::*;

use crate::json::{
    JsonData, JsonValue, array_items, as_array, get, get_in, get_member, items_data,
    lemma_items_data, opt_string_view, render_json_value, rendered,
};
use crate::text::{
    chars_of, decimal, digit_char, digits_value, is_digit, join, push_decimal, string_of,
};

verus! {

/// The rendered value, if there is one.
pub open spec fn rendered_opt(v: Option<JsonData>) -> Option<Seq<char>> {
    match v {
        Some(d) => Some(rendered(d)),
        None => None,
    }
}

/// The rendered items joined by `sep`.
pub open spec fn joined_items(items: Seq<JsonData>, sep: Seq<char>) -> Seq<char> {
    join(Seq::new(items.len(), |i: int| rendered(items[i])), sep)
}

/// The rendered items of an array joined by `sep`, if it is an array.
pub open spec fn joined_array(v: Option<JsonData>, sep: Seq<char>) -> Option<Seq<char>> {
    match array_items(v) {
        Some(items) => Some(joined_items(items, sep)),
        None => None,
    }
}

/// `true` or `false` for a boolean value.
pub open spec fn bool_word(v: Option<JsonData>) -> Option<Seq<char>> {
    match v {
        Some(JsonData::Bool(b)) => Some(
            if b {
                seq!['t', 'r', 'u', 'e']
            } else {
                seq!['f', 'a', 'l', 's', 'e']
            },
        ),
        _ => None,
    }
}

/// `Value::as_u64`: a number written as plain decimal digits that fits in 64 bits.
pub open spec fn number_u64(v: Option<JsonData>) -> Option<nat> {
    match v {
        Some(JsonData::Number(t)) => if t.len() > 0 && (forall|i: int|
            0 <= i < t.len() ==> is_digit(#[trigger] t[i])) && digits_value(t) <= u64::MAX {
            Some(digits_value(t))
        } else {
            None
        },
        _ => None,
    }
}

/// The power of two whose multiples are the `f64` values near `b`: the least `p`, from
/// `p` on by doubling, with `b / p < 2^53`.
pub open spec fn f64_grain(b: nat, p: nat) -> nat
    decreases b - p,
    when p > 0
{
    if b / p < 0x20_0000_0000_0000 || p >= b {
        p
    } else {
        proof {
            assert(2 * p <= b) by (nonlinear_arith)
                requires
                    b / p >= 0x20_0000_0000_0000,
                    p > 0,
            ;
        }
        f64_grain(b, 2 * p)
    }
}

/// `a / d` rounded to the nearest integer, ties to the even one.
pub open spec fn round_half_even(a: nat, d: nat) -> nat {
    let q = a / d;
    let r = a % d;
    if 2 * r > d || (2 * r == d && q % 2 == 1) {
        q + 1
    } else {
        q
    }
}

/// `b as f64`: `b` rounded to the nearest `f64`, ties to even.
pub open spec fn f64_of(b: nat) -> nat {
    let p = f64_grain(b, 1);
    round_half_even(b, p) * p
}

/// `n` hundredths as `{:.2}` prints them.
pub open spec fn two_decimals(n: nat) -> Seq<char> {
    decimal(n / 100) + seq!['.', digit_char((n % 100) / 10), digit_char(n % 10)]
}

/// The size `b` in bytes as the monitor shows it: `B` below 1 KiB, else KiB, MiB or
/// GiB with two decimals, from the `f64` value of `b`, rounded half to even.
pub open spec fn bytes_text(b: nat) -> Seq<char> {
    let x = f64_of(b);
    if b >= 0x4000_0000 {
        two_decimals(round_half_even(x * 100, 0x4000_0000)) + seq![' ', 'G', 'i', 'B']
    } else if b >= 0x10_0000 {
        two_decimals(round_half_even(x * 100, 0x10_0000)) + seq![' ', 'M', 'i', 'B']
    } else if b >= 0x400 {
        two_decimals(round_half_even(x * 100, 0x400)) + seq![' ', 'K', 'i', 'B']
    } else {
        decimal(b) + seq![' ', 'B']
    }
}

fn f64_exact(b: u64) -> (x: u128)
    ensures
        x == f64_of(b as nat),
        b < 0x20_0000_0000_0000 ==> x == b,
        x <= 0x2_0000_0000_0000_0000,
{
    let mut p: u64 = 1;
    while b / p >= 0x20_0000_0000_0000 && p < b
        invariant
            1 <= p,
            p == 1 || p <= b,
            f64_grain(b as nat, p as nat) == f64_grain(b as nat, 1),
        decreases b - p,
    {
        assert(p <= b / 2) by (nonlinear_arith)
            requires
                b / p >= 0x20_0000_0000_0000,
                p >= 1,
        ;
        p = p * 2;
    }
    let q: u64 = b / p;
    let r: u64 = b % p;
    let q2: u128 = if (r as u128) * 2 > (p as u128) || ((r as u128) * 2 == (p as u128) && q % 2
        == 1) {
        (q as u128) + 1
    } else {
        q as u128
    };
    assert(q2 * p <= 0x2_0000_0000_0000_0000) by (nonlinear_arith)
        requires
            q == b / p,
            q2 <= q + 1,
            p >= 1,
            b <= 0xffff_ffff_ffff_ffff,
            p == 1 || p <= b,
    ;
    let x: u128 = q2 * (p as u128);
    proof {
        if b < 0x20_0000_0000_0000 {
            assert(p == 1);
        }
    }
    x
}

fn round_half_even_exec(a: u128, d: u128) -> (r: u128)
    requires
        0 < d <= 0x1_0000_0000,
        a < 0x1000_0000_0000_0000_0000,
    ensures
        r == round_half_even(a as nat, d as nat),
{
    let q = a / d;
    let r = a % d;
    if r * 2 > d || (r * 2 == d && q % 2 == 1) {
        q + 1
    } else {
        q
    }
}

fn push_two_decimals(out: &mut Vec<char>, n: u128)
    requires
        n / 100 <= u64::MAX,
    ensures
        final(out)@ == old(out)@ + two_decimals(n as nat),
{
    let whole: u64 = (n / 100) as u64;
    let frac: u8 = (n % 100) as u8;
    push_decimal(out, whole);
    out.push('.');
    out.push(((frac / 10) + 48) as char);
    out.push(((frac % 10) + 48) as char);
    assert(final(out)@ =~= old(out)@ + two_decimals(n as nat));
}

/// The size `bytes` as the monitor shows it, e.g. `512 B`, `1.50 KiB`, `2.00 GiB`.
pub fn format_bytes(bytes: u64) -> (r: String)
    ensures
        r@ == bytes_text(bytes as nat),
{
    let x = f64_exact(bytes);
    let mut out: Vec<char> = Vec::new();
    if bytes >= 0x4000_0000 {
        let n = round_half_even_exec(x * 100, 0x4000_0000);
        assert(n / 100 <= u64::MAX) by (nonlinear_arith)
            requires
                n <= (x * 100) / 0x4000_0000 + 1,
                x <= 0x2_0000_0000_0000_0000,
        ;
        push_two_decimals(&mut out, n);
        out.push(' ');
        out.push('G');
        out.push('i');
        out.push('B');
    } else if bytes >= 0x10_0000 {
        let n = round_half_even_exec(x * 100, 0x10_0000);
        assert(n / 100 <= u64::MAX) by (nonlinear_arith)
            requires
                n <= (x * 100) / 0x10_0000 + 1,
                x <= 0x2_0000_0000_0000_0000,
        ;
        push_two_decimals(&mut out, n);
        out.push(' ');
        out.push('M');
        out.push('i');
        out.push('B');
    } else if bytes >= 0x400 {
        let n = round_half_even_exec(x * 100, 0x400);
        assert(n / 100 <= u64::MAX) by (nonlinear_arith)
            requires
                n <= (x * 100) / 0x400 + 1,
                x <= 0x2_0000_0000_0000_0000,
        ;
        push_two_decimals(&mut out, n);
        out.push(' ');
        out.push('K');
        out.push('i');
        out.push('B');
    } else {
        push_decimal(&mut out, bytes);
        out.push(' ');
        out.push('B');
    }
    assert(out@ =~= bytes_text(bytes as nat));
    string_of(&out)
}


/// The size text of a byte count, if there is one.
pub open spec fn memory_text(n: Option<nat>) -> Option<Seq<char>> {
    match n {
        Some(b) => Some(bytes_text(b)),
        None => None,
    }
}

/// The summary figures shown on the dashboard, as text; each is absent when the
/// summary lacks it.
#[derive(Debug)]
pub struct SummarySnapshot {
    pub api_id: Option<String>,
    pub worker_id: Option<String>,
    pub version: Option<String>,
    pub kind: Option<String>,
    pub mode: Option<String>,
    pub uptime: Option<String>,
    pub restricted: Option<String>,
    pub features: Option<String>,
    pub hashrate_total: Option<String>,
    pub workers: Option<String>,
    pub miners_now: Option<String>,
    pub miners_max: Option<String>,
    pub upstream_active: Option<String>,
    pub upstream_ratio: Option<String>,
    pub accepted: Option<String>,
    pub rejected: Option<String>,
    pub invalid: Option<String>,
    pub expired: Option<String>,
    pub avg_time: Option<String>,
    pub latency: Option<String>,
    pub donate_level: Option<String>,
    pub donated: Option<String>,
    pub memory_rss: Option<String>,
    pub load_average: Option<String>,
}

/// The summary figures as character sequences.
pub struct SnapshotData {
    pub api_id: Option<Seq<char>>,
    pub worker_id: Option<Seq<char>>,
    pub version: Option<Seq<char>>,
    pub kind: Option<Seq<char>>,
    pub mode: Option<Seq<char>>,
    pub uptime: Option<Seq<char>>,
    pub restricted: Option<Seq<char>>,
    pub features: Option<Seq<char>>,
    pub hashrate_total: Option<Seq<char>>,
    pub workers: Option<Seq<char>>,
    pub miners_now: Option<Seq<char>>,
    pub miners_max: Option<Seq<char>>,
    pub upstream_active: Option<Seq<char>>,
    pub upstream_ratio: Option<Seq<char>>,
    pub accepted: Option<Seq<char>>,
    pub rejected: Option<Seq<char>>,
    pub invalid: Option<Seq<char>>,
    pub expired: Option<Seq<char>>,
    pub avg_time: Option<Seq<char>>,
    pub latency: Option<Seq<char>>,
    pub donate_level: Option<Seq<char>>,
    pub donated: Option<Seq<char>>,
    pub memory_rss: Option<Seq<char>>,
    pub load_average: Option<Seq<char>>,
}

impl View for SummarySnapshot {
    type V = SnapshotData;

    open spec fn view(&self) -> SnapshotData {
        SnapshotData {
            api_id: opt_string_view(self.api_id),
            worker_id: opt_string_view(self.worker_id),
            version: opt_string_view(self.version),
            kind: opt_string_view(self.kind),
            mode: opt_string_view(self.mode),
            uptime: opt_string_view(self.uptime),
            restricted: opt_string_view(self.restricted),
            features: opt_string_view(self.features),
            hashrate_total: opt_string_view(self.hashrate_total),
            workers: opt_string_view(self.workers),
            miners_now: opt_string_view(self.miners_now),
            miners_max: opt_string_view(self.miners_max),
            upstream_active: opt_string_view(self.upstream_active),
            upstream_ratio: opt_string_view(self.upstream_ratio),
            accepted: opt_string_view(self.accepted),
            rejected: opt_string_view(self.rejected),
            invalid: opt_string_view(self.invalid),
            expired: opt_string_view(self.expired),
            avg_time: opt_string_view(self.avg_time),
            latency: opt_string_view(self.latency),
            donate_level: opt_string_view(self.donate_level),
            donated: opt_string_view(self.donated),
            memory_rss: opt_string_view(self.memory_rss),
            load_average: opt_string_view(self.load_average),
        }
    }
}

/// A snapshot without any figure.
pub open spec fn empty_snapshot() -> SnapshotData {
    SnapshotData {
        api_id: None,
        worker_id: None,
        version: None,
        kind: None,
        mode: None,
        uptime: None,
        restricted: None,
        features: None,
        hashrate_total: None,
        workers: None,
        miners_now: None,
        miners_max: None,
        upstream_active: None,
        upstream_ratio: None,
        accepted: None,
        rejected: None,
        invalid: None,
        expired: None,
        avg_time: None,
        latency: None,
        donate_level: None,
        donated: None,
        memory_rss: None,
        load_average: None,
    }
}

/// The figures of a `/1/summary` response: top-level members and members of the
/// `hashrate`, `miners`, `upstreams`, `results` and `resources` objects, rendered;
/// `restricted` as `true` or `false`; `features` and `load_average` joined by `, `,
/// the total hashrates by ` / `; the resident memory as a size.
pub open spec fn summary_data(v: JsonData) -> SnapshotData {
    SnapshotData {
        api_id: rendered_opt(get(v, "id"@)),
        worker_id: rendered_opt(get(v, "worker_id"@)),
        version: rendered_opt(get(v, "version"@)),
        kind: rendered_opt(get(v, "kind"@)),
        mode: rendered_opt(get(v, "mode"@)),
        uptime: rendered_opt(get(v, "uptime"@)),
        restricted: bool_word(get(v, "restricted"@)),
        features: joined_array(get(v, "features"@), seq![',', ' ']),
        hashrate_total: joined_array(get_in(get(v, "hashrate"@), "total"@), seq![' ', '/', ' ']),
        workers: rendered_opt(get(v, "workers"@)),
        miners_now: rendered_opt(get_in(get(v, "miners"@), "now"@)),
        miners_max: rendered_opt(get_in(get(v, "miners"@), "max"@)),
        upstream_active: rendered_opt(get_in(get(v, "upstreams"@), "active"@)),
        upstream_ratio: rendered_opt(get_in(get(v, "upstreams"@), "ratio"@)),
        accepted: rendered_opt(get_in(get(v, "results"@), "accepted"@)),
        rejected: rendered_opt(get_in(get(v, "results"@), "rejected"@)),
        invalid: rendered_opt(get_in(get(v, "results"@), "invalid"@)),
        expired: rendered_opt(get_in(get(v, "results"@), "expired"@)),
        avg_time: rendered_opt(get_in(get(v, "results"@), "avg_time"@)),
        latency: rendered_opt(get_in(get(v, "results"@), "latency"@)),
        donate_level: rendered_opt(get(v, "donate_level"@)),
        donated: rendered_opt(get(v, "donated"@)),
        memory_rss: memory_text(number_u64(get_in(get_in(get(v, "resources"@), "memory"@), "resident_set_memory"@))),
        load_average: joined_array(get_in(get(v, "resources"@), "load_average"@), seq![',', ' ']),
    }
}

/// The restricted figure reflects the summary's `restricted` flag: `true` when the
/// flag is true, `false` when it is false, and no figure when the member is missing
/// or not a boolean.
pub proof fn law_restricted_figure_follows_the_flag(v: JsonData)
    ensures
        get(v, "restricted"@) == Some(JsonData::Bool(true)) ==> summary_data(v).restricted == Some(
            "true"@,
        ),
        get(v, "restricted"@) == Some(JsonData::Bool(false)) ==> summary_data(v).restricted
            == Some("false"@),
        !(get(v, "restricted"@) matches Some(JsonData::Bool(_))) ==> summary_data(v).restricted
            is None,
{
    reveal_strlit("true");
    reveal_strlit("false");
    assert("true"@ =~= seq!['t', 'r', 'u', 'e']);
    assert("false"@ =~= seq!['f', 'a', 'l', 's', 'e']);
}

impl Default for SummarySnapshot {
    fn default() -> (r: Self)
        ensures
            r@ == empty_snapshot(),
    {
        SummarySnapshot {
            api_id: None,
            worker_id: None,
            version: None,
            kind: None,
            mode: None,
            uptime: None,
            restricted: None,
            features: None,
            hashrate_total: None,
            workers: None,
            miners_now: None,
            miners_max: None,
            upstream_active: None,
            upstream_ratio: None,
            accepted: None,
            rejected: None,
            invalid: None,
            expired: None,
            avg_time: None,
            latency: None,
            donate_level: None,
            donated: None,
            memory_rss: None,
            load_average: None,
        }
    }
}

/// The rendered value, if there is one.
pub fn value_string(value: Option<&JsonValue>) -> (r: Option<String>)
    ensures
        opt_string_view(r) == rendered_opt(opt_data(value)),
{
    match value {
        Some(v) => Some(render_json_value(v)),
        None => None,
    }
}

pub open spec fn opt_data(v: Option<&JsonValue>) -> Option<JsonData> {
    match v {
        Some(x) => Some(x.data()),
        None => None,
    }
}

/// The rendered items joined by `sep`.
fn join_rendered(values: &Vec<JsonValue>, sep: &[char]) -> (r: String)
    ensures
        r@ == joined_items(items_data(values@), sep@),
{
    proof {
        lemma_items_data(values@);
    }
    let ghost ds = items_data(values@);
    let mut parts: Vec<Vec<char>> = Vec::new();
    let mut i: usize = 0;
    while i < values.len()
        invariant
            i <= values@.len(),
            ds == items_data(values@),
            ds.len() == values@.len(),
            forall|k: int| 0 <= k < values@.len() ==> #[trigger] ds[k] == values@[k].data(),
            crate::text::views(parts@) == Seq::new(i as nat, |k: int| rendered(ds[k])),
        decreases values.len() - i,
    {
        let t = render_json_value(&values[i]);
        let ghost prev = parts@;
        parts.push(chars_of(t.as_str()));
        assert(crate::text::views(parts@) =~= crate::text::views(prev).push(rendered(ds[i as int])));
        i += 1;
        assert(crate::text::views(parts@) =~= Seq::new(i as nat, |k: int| rendered(ds[k])));
    }
    let joined = crate::text::join_chars(&parts, sep);
    string_of(&joined)
}

/// The rendered values joined by `, `.
pub fn join_json_values(values: &Vec<JsonValue>) -> (r: String)
    ensures
        r@ == joined_items(items_data(values@), seq![',', ' ']),
{
    join_rendered(values, &vec![',', ' '])
}

/// The rendered values joined by ` / `.
pub fn join_hashrate_values(values: &Vec<JsonValue>) -> (r: String)
    ensures
        r@ == joined_items(items_data(values@), seq![' ', '/', ' ']),
{
    join_rendered(values, &vec![' ', '/', ' '])
}

fn joined_opt(values: Option<&Vec<JsonValue>>, sep: &[char]) -> (r: Option<String>)
    ensures
        match values {
            Some(vs) => opt_string_view(r) == Some(joined_items(items_data(vs@), sep@)),
            None => r is None,
        },
{
    match values {
        Some(vs) => Some(join_rendered(vs, sep)),
        None => None,
    }
}

fn member_of<'a>(v: Option<&'a JsonValue>, key: &str) -> (r: Option<&'a JsonValue>)
    ensures
        opt_data(r) == get_in(opt_data(v), key@),
{
    match v {
        Some(x) => get_member(x, &chars_of(key)),
        None => None,
    }
}

fn bool_text_of(v: Option<&JsonValue>) -> (r: Option<String>)
    ensures
        opt_string_view(r) == bool_word(opt_data(v)),
{
    match v {
        Some(JsonValue::Bool(b)) => Some(
            if *b {
                string_of(&vec!['t', 'r', 'u', 'e'])
            } else {
                string_of(&vec!['f', 'a', 'l', 's', 'e'])
            },
        ),
        _ => None,
    }
}

fn u64_of(v: Option<&JsonValue>) -> (r: Option<u64>)
    ensures
        match r {
            Some(n) => number_u64(opt_data(v)) == Some(n as nat),
            None => number_u64(opt_data(v)) is None,
        },
{
    match v {
        Some(JsonValue::Number(t)) => {
            let cs = chars_of(t.as_str());
            if cs.len() > 0 && cs[0] == '+' {
                return None;
            }
            let parsed = crate::text::parse_unsigned(&cs, u64::MAX);
            proof {
                assert(crate::text::unsigned_digits(cs@) == cs@);
            }
            parsed
        },
        _ => None,
    }
}

fn memory_of(v: Option<&JsonValue>) -> (r: Option<String>)
    ensures
        opt_string_view(r) == memory_text(number_u64(opt_data(v))),
{
    match u64_of(v) {
        Some(n) => Some(format_bytes(n)),
        None => None,
    }
}

fn arrays_of<'a>(v: Option<&'a JsonValue>) -> (r: Option<&'a Vec<JsonValue>>)
    ensures
        match r {
            Some(items) => array_items(opt_data(v)) == Some(items_data(items@)),
            None => array_items(opt_data(v)) is None,
        },
{
    as_array(v)
}

impl SummarySnapshot {
    /// The figures of a `/1/summary` response.
    pub fn from_summary(value: &JsonValue) -> (r: Self)
        ensures
            r@ == summary_data(value.data()),
    {
        let v = Some(value);
        let hashrate = member_of(v, "hashrate");
        let miners = member_of(v, "miners");
        let upstreams = member_of(v, "upstreams");
        let results = member_of(v, "results");
        let resources = member_of(v, "resources");
        let memory = member_of(resources, "memory");
        SummarySnapshot {
            api_id: value_string(member_of(v, "id")),
            worker_id: value_string(member_of(v, "worker_id")),
            version: value_string(member_of(v, "version")),
            kind: value_string(member_of(v, "kind")),
            mode: value_string(member_of(v, "mode")),
            uptime: value_string(member_of(v, "uptime")),
            restricted: bool_text_of(member_of(v, "restricted")),
            features: joined_opt(arrays_of(member_of(v, "features")), &vec![',', ' ']),
            hashrate_total: joined_opt(arrays_of(member_of(hashrate, "total")), &vec![' ', '/', ' ']),
            workers: value_string(member_of(v, "workers")),
            miners_now: value_string(member_of(miners, "now")),
            miners_max: value_string(member_of(miners, "max")),
            upstream_active: value_string(member_of(upstreams, "active")),
            upstream_ratio: value_string(member_of(upstreams, "ratio")),
            accepted: value_string(member_of(results, "accepted")),
            rejected: value_string(member_of(results, "rejected")),
            invalid: value_string(member_of(results, "invalid")),
            expired: value_string(member_of(results, "expired")),
            avg_time: value_string(member_of(results, "avg_time")),
            latency: value_string(member_of(results, "latency")),
            donate_level: value_string(member_of(v, "donate_level")),
            donated: value_string(member_of(v, "donated")),
            memory_rss: memory_of(member_of(memory, "resident_set_memory")),
            load_average: joined_opt(arrays_of(member_of(resources, "load_average")), &vec![',', ' ']),
        }
    }
}

} // verus!
