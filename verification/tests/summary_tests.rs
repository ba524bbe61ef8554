use xmrigcc_proxy_monitor::json::{JsonMember, JsonValue};
use xmrigcc_proxy_monitor::summary::{
    format_bytes, join_hashrate_values, join_json_values, value_string, SummarySnapshot,
};

fn num(n: &str) -> JsonValue {
    JsonValue::Number(n.to_string())
}

fn text(t: &str) -> JsonValue {
    JsonValue::Str(t.to_string())
}

fn obj(members: Vec<(&str, JsonValue)>) -> JsonValue {
    JsonValue::Object(
        members
            .into_iter()
            .map(|(key, value)| JsonMember { key: key.to_string(), value })
            .collect(),
    )
}

#[test]
fn bytes_below_a_kibibyte_are_whole() {
    assert_eq!(format_bytes(0), "0 B");
    assert_eq!(format_bytes(1), "1 B");
    assert_eq!(format_bytes(1023), "1023 B");
}

#[test]
fn bytes_use_two_decimals_in_binary_units() {
    assert_eq!(format_bytes(1024), "1.00 KiB");
    assert_eq!(format_bytes(1152), "1.12 KiB");
    assert_eq!(format_bytes(1536), "1.50 KiB");
    assert_eq!(format_bytes(1048575), "1024.00 KiB");
    assert_eq!(format_bytes(1048576), "1.00 MiB");
    assert_eq!(format_bytes(5 * 1048576 + 1), "5.00 MiB");
    assert_eq!(format_bytes(123456789), "117.74 MiB");
    assert_eq!(format_bytes(1073741824), "1.00 GiB");
    assert_eq!(format_bytes(1610612736), "1.50 GiB");
    assert_eq!(format_bytes(1099511627776), "1024.00 GiB");
}

#[test]
fn bytes_match_float_formatting_for_large_values() {
    assert_eq!(format_bytes(9007199254740993), "8388608.00 GiB");
    assert_eq!(format_bytes(u64::MAX), "17179869184.00 GiB");
    for b in [1000u64, 2047, 4095, 10_000, 999_999, 77_777_777, 5_000_000_000, 123_456_789_012_345] {
        let x = b as f64;
        let expected = if x >= 1073741824.0 {
            format!("{:.2} GiB", x / 1073741824.0)
        } else if x >= 1048576.0 {
            format!("{:.2} MiB", x / 1048576.0)
        } else if x >= 1024.0 {
            format!("{:.2} KiB", x / 1024.0)
        } else {
            format!("{} B", b)
        };
        assert_eq!(format_bytes(b), expected);
    }
}

#[test]
fn joined_values() {
    let values = vec![num("1.5"), text("x"), JsonValue::Null];
    assert_eq!(join_json_values(&values), "1.5, x, null");
    assert_eq!(join_hashrate_values(&values), "1.5 / x / null");
    assert_eq!(join_json_values(&Vec::new()), "");
    assert_eq!(value_string(Some(&text("v"))).as_deref(), Some("v"));
    assert_eq!(value_string(None), None);
}

#[test]
fn summary_figures_are_read_from_the_payload() {
    let summary = obj(vec![
        ("donate_level", num("0")),
        ("donated", num("0.0")),
        ("features", JsonValue::Array(vec![text("api"), text("tls")])),
        ("hashrate", obj(vec![("total", JsonValue::Array(vec![num("1.5"), num("2.0")]))])),
        ("id", text("abc")),
        ("kind", text("proxy")),
        ("miners", obj(vec![("max", num("10")), ("now", num("3"))])),
        ("mode", text("nicehash")),
        (
            "resources",
            obj(vec![
                ("load_average", JsonValue::Array(vec![num("0.5"), num("0.25")])),
                ("memory", obj(vec![("resident_set_memory", num("1048576"))])),
            ]),
        ),
        ("restricted", JsonValue::Bool(true)),
        (
            "results",
            obj(vec![
                ("accepted", num("11")),
                ("avg_time", num("4")),
                ("expired", num("0")),
                ("invalid", num("1")),
                ("latency", num("30")),
                ("rejected", num("2")),
            ]),
        ),
        ("upstreams", obj(vec![("active", num("1")), ("ratio", num("3.0"))])),
        ("uptime", num("3600")),
        ("version", text("6.0")),
        ("worker_id", text("w1")),
        ("workers", num("4")),
    ]);
    let s = SummarySnapshot::from_summary(&summary);
    assert_eq!(s.api_id.as_deref(), Some("abc"));
    assert_eq!(s.worker_id.as_deref(), Some("w1"));
    assert_eq!(s.version.as_deref(), Some("6.0"));
    assert_eq!(s.kind.as_deref(), Some("proxy"));
    assert_eq!(s.mode.as_deref(), Some("nicehash"));
    assert_eq!(s.uptime.as_deref(), Some("3600"));
    assert_eq!(s.restricted.as_deref(), Some("true"));
    assert_eq!(s.features.as_deref(), Some("api, tls"));
    assert_eq!(s.hashrate_total.as_deref(), Some("1.5 / 2.0"));
    assert_eq!(s.workers.as_deref(), Some("4"));
    assert_eq!(s.miners_now.as_deref(), Some("3"));
    assert_eq!(s.miners_max.as_deref(), Some("10"));
    assert_eq!(s.upstream_active.as_deref(), Some("1"));
    assert_eq!(s.upstream_ratio.as_deref(), Some("3.0"));
    assert_eq!(s.accepted.as_deref(), Some("11"));
    assert_eq!(s.rejected.as_deref(), Some("2"));
    assert_eq!(s.invalid.as_deref(), Some("1"));
    assert_eq!(s.expired.as_deref(), Some("0"));
    assert_eq!(s.avg_time.as_deref(), Some("4"));
    assert_eq!(s.latency.as_deref(), Some("30"));
    assert_eq!(s.donate_level.as_deref(), Some("0"));
    assert_eq!(s.donated.as_deref(), Some("0.0"));
    assert_eq!(s.memory_rss.as_deref(), Some("1.00 MiB"));
    assert_eq!(s.load_average.as_deref(), Some("0.5, 0.25"));
}

#[test]
fn missing_or_mistyped_figures_stay_empty() {
    let summary = obj(vec![
        ("restricted", text("yes")),
        ("features", text("api")),
        ("resources", obj(vec![("memory", obj(vec![("resident_set_memory", num("-5"))]))])),
        ("miners", num("3")),
    ]);
    let s = SummarySnapshot::from_summary(&summary);
    assert_eq!(s.restricted, None);
    assert_eq!(s.features, None);
    assert_eq!(s.memory_rss, None);
    assert_eq!(s.miners_now, None);
    assert_eq!(s.api_id, None);
    let empty = SummarySnapshot::from_summary(&JsonValue::Null);
    assert_eq!(empty.version, None);
    assert_eq!(SummarySnapshot::default().hashrate_total, None);
}

#[test]
fn memory_figure_needs_an_unsigned_integer() {
    let with = |n: &str| {
        obj(vec![("resources", obj(vec![("memory", obj(vec![("resident_set_memory", num(n))]))]))])
    };
    assert_eq!(SummarySnapshot::from_summary(&with("512")).memory_rss.as_deref(), Some("512 B"));
    assert_eq!(SummarySnapshot::from_summary(&with("1.5")).memory_rss, None);
    assert_eq!(SummarySnapshot::from_summary(&with("1e3")).memory_rss, None);
}
