use vstd::prelude::*;

use crate::inventory::{
    ApiEndpointSpec, EndpointModel, default_endpoint, default_endpoint_path, endpoint_views,
    law_default_route_is_safe, routes_well_formed,
};
use crate::json::{
    JsonData, JsonMember, JsonValue, OutputField, copy_json, endpoint_fields, fields_view,
    lemma_members_data, members_data, opt_string_view, output_fields_for_endpoint,
    string_views,
};
use crate::settings::{
    Settings, SettingsData, default_host_text, default_settings, endpoint_or_summary,
    http_text, https_text, law_transport_normalization_is_stable, lemma_transport_fixed,
    normalize_transport, summary_path_chars, summary_path_text, transport_or,
};
use crate::summary::{SummarySnapshot, empty_snapshot, summary_data};
use crate::text::{
    append_chars, chars_eq, chars_of, decimal, digit_value, digits_value, is_digit, join,
    lemma_trim_fixed, lemma_trim_idempotent, owned, parse_unsigned, push_decimal, starts_with,
    string_of, trim, trimmed, unsigned_digits, unsigned_value,
};

verus! {

/// The two screens: first-run setup, and the dashboard.
#[derive(Debug, Clone, Copy, PartialEq, Eq, Structural)]
pub enum Screen {
    Setup,
    Dashboard,
}

/// The transports offered in the settings form.
pub fn transport_options() -> (r: Vec<String>)
    ensures
        r@.len() == 2,
        r@[0]@ == "http"@,
        r@[1]@ == "https"@,
{
    vec![owned("http"), owned("https")]
}

/// The trimmed text, or `default` when it is blank.
pub open spec fn trimmed_or(value: Seq<char>, default: Seq<char>) -> Seq<char> {
    if trim(value).len() == 0 {
        default
    } else {
        trim(value)
    }
}

/// The trimmed input, or `default` when it is blank.
pub fn trimmed_or_default(value: &str, default: &str) -> (r: String)
    ensures
        r@ == trimmed_or(value@, default@),
{
    let t = trimmed(&chars_of(value));
    if t.len() == 0 {
        owned(default)
    } else {
        string_of(&t)
    }
}

/// The number in a form field: `default` when the field is blank, else the trimmed
/// text read as a decimal number at most `max`, or none when it is not one.
pub open spec fn number_or(value: Seq<char>, default: nat, max: nat) -> Option<nat> {
    if trim(value).len() == 0 {
        Some(default)
    } else {
        match unsigned_value(trim(value)) {
            Some(n) => if n <= max {
                Some(n)
            } else {
                None
            },
            None => None,
        }
    }
}

/// A port from a form field: `default` when blank, else the trimmed text as a `u16`;
/// `error_message` when it is not one.
pub fn parse_or_default_u16(value: &str, default: u16, error_message: &str) -> (r: Result<
    u16,
    String,
>)
    ensures
        match r {
            Ok(n) => number_or(value@, default as nat, u16::MAX as nat) == Some(n as nat),
            Err(e) => number_or(value@, default as nat, u16::MAX as nat) is None && e@
                == error_message@,
        },
{
    let t = trimmed(&chars_of(value));
    if t.len() == 0 {
        Ok(default)
    } else {
        match parse_unsigned(&t, u16::MAX as u64) {
            Some(n) => Ok(n as u16),
            None => Err(owned(error_message)),
        }
    }
}

/// A count from a form field: `default` when blank, else the trimmed text as a `u64`;
/// `error_message` when it is not one.
pub fn parse_or_default_u64(value: &str, default: u64, error_message: &str) -> (r: Result<
    u64,
    String,
>)
    ensures
        match r {
            Ok(n) => number_or(value@, default as nat, u64::MAX as nat) == Some(n as nat),
            Err(e) => number_or(value@, default as nat, u64::MAX as nat) is None && e@
                == error_message@,
        },
{
    let t = trimmed(&chars_of(value));
    if t.len() == 0 {
        Ok(default)
    } else {
        match parse_unsigned(&t, u64::MAX) {
            Some(n) => Ok(n),
            None => Err(owned(error_message)),
        }
    }
}

/// The seconds between status polls set in the form: the trimmed text as a positive
/// `u64`, else 10.
pub open spec fn poll_interval(input: Seq<char>) -> nat {
    match unsigned_value(trim(input)) {
        Some(n) => if 0 < n <= u64::MAX {
            n
        } else {
            10
        },
        None => 10,
    }
}

/// The seconds between status polls set in the form.
pub fn poll_interval_seconds(input: &str) -> (r: u64)
    ensures
        r == poll_interval(input@),
{
    let t = trimmed(&chars_of(input));
    match parse_unsigned(&t, u64::MAX) {
        Some(n) => if n > 0 {
            n
        } else {
            10
        },
        None => 10,
    }
}

/// `Waiting` for a figure not known yet.
pub open spec fn waiting_text() -> Seq<char> {
    seq!['W', 'a', 'i', 't', 'i', 'n', 'g']
}

/// The text shown for a figure: the figure, or `Waiting` when there is none.
pub fn display_value(value: Option<&str>) -> (r: String)
    ensures
        r@ == match value {
            Some(t) => t@,
            None => waiting_text(),
        },
{
    match value {
        Some(t) => owned(t),
        None => string_of(&vec!['W', 'a', 'i', 't', 'i', 'n', 'g']),
    }
}

proof fn lemma_decimal_digits(n: nat)
    ensures
        decimal(n).len() > 0,
        forall|i: int| 0 <= i < decimal(n).len() ==> is_digit(#[trigger] decimal(n)[i]),
        digits_value(decimal(n)) == n,
    decreases n,
{
    if n >= 10 {
        lemma_decimal_digits(n / 10);
        let d = decimal(n);
        assert(d.drop_last() =~= decimal(n / 10));
        assert(digit_value(d.last()) == n % 10);
        assert(n == (n / 10) * 10 + n % 10);
        assert forall|i: int| 0 <= i < d.len() implies is_digit(#[trigger] d[i]) by {
            if i < d.len() - 1 {
                assert(d[i] == decimal(n / 10)[i]);
            }
        }
        assert(digits_value(d) == digits_value(d.drop_last()) * 10 + digit_value(d.last()));
        assert(digits_value(d) == n);
    } else {
        assert(decimal(n).drop_last() =~= Seq::<char>::empty());
        assert(digit_value(decimal(n).last()) == n);
        assert(digits_value(decimal(n)) == digits_value(decimal(n).drop_last()) * 10 + digit_value(decimal(n).last()));
        assert(digits_value(decimal(n)) == n);
    }
}

/// Reading the decimal text of a number gives back the number: the text that a port
/// or a poll interval is shown with in the form parses to the same value.
pub proof fn law_decimal_text_parses_back(n: nat)
    ensures
        unsigned_value(decimal(n)) == Some(n),
        trim(decimal(n)) == decimal(n),
{
    lemma_decimal_digits(n);
    let d = decimal(n);
    assert(is_digit(d[0]));
    assert(unsigned_digits(d) == d);
    crate::text::lemma_trim_fixed(d);
}


/// The message when the port field is not a port number.
pub open spec fn port_error_text() -> Seq<char> {
    "HTTP API port must be a valid number between 0 and 65535."@
}

/// The message when the poll field is not a number.
pub open spec fn poll_error_text() -> Seq<char> {
    "Poll frequency must be a valid number of seconds."@
}

/// The message when the poll field is zero.
pub open spec fn poll_zero_text() -> Seq<char> {
    "Poll frequency must be greater than zero."@
}

/// The message when no route can be preferred.
pub open spec fn no_routes_text() -> Seq<char> {
    "No safe HTTP API routes were loaded from http-api.output."@
}

/// The position of the first route with path `path`, or `es.len()`.
pub open spec fn first_path_index(es: Seq<EndpointModel>, path: Seq<char>) -> int
    decreases es.len(),
{
    if es.len() == 0 {
        0
    } else if es[0].path == path {
        0
    } else {
        1 + first_path_index(es.drop_first(), path)
    }
}

pub proof fn lemma_first_path_index(es: Seq<EndpointModel>, path: Seq<char>)
    ensures
        0 <= first_path_index(es, path) <= es.len(),
        first_path_index(es, path) < es.len() ==> es[first_path_index(es, path)].path == path,
        forall|j: int| 0 <= j < first_path_index(es, path) ==> (#[trigger] es[j]).path != path,
    decreases es.len(),
{
    if es.len() > 0 && es[0].path != path {
        lemma_first_path_index(es.drop_first(), path);
        assert forall|j: int| 0 <= j < first_path_index(es, path) implies (#[trigger] es[j]).path
            != path by {
            if j > 0 {
                assert(es[j] == es.drop_first()[j - 1]);
            }
        }
    }
}

/// The route saved as preferred: the selected one when it is documented, else the
/// default route.
pub open spec fn preferred_path(es: Seq<EndpointModel>, selected: Seq<char>) -> Option<Seq<char>> {
    if first_path_index(es, selected) < es.len() {
        Some(es[first_path_index(es, selected)].path)
    } else {
        default_endpoint_path(es)
    }
}

/// The settings the form describes, or the message of the first field in error: the
/// port, the poll interval (which must not be zero), and the preferred route.
pub open spec fn form_settings(
    host: Seq<char>,
    port: Seq<char>,
    transport: Seq<char>,
    token: Seq<char>,
    poll: Seq<char>,
    es: Seq<EndpointModel>,
    selected: Seq<char>,
) -> Result<SettingsData, Seq<char>> {
    match number_or(port, 80, u16::MAX as nat) {
        None => Err(port_error_text()),
        Some(p) => match number_or(poll, 10, u64::MAX as nat) {
            None => Err(poll_error_text()),
            Some(f) => if f == 0 {
                Err(poll_zero_text())
            } else {
                match preferred_path(es, selected) {
                    None => Err(no_routes_text()),
                    Some(pp) => Ok(
                        SettingsData {
                            api_host: trimmed_or(host, default_host_text()),
                            api_port: p as u16,
                            api_transport: transport_or(transport, http_text()),
                            api_access_token: trim(token),
                            poll_frequency_seconds: f as u64,
                            preferred_endpoint: pp,
                        },
                    ),
                }
            },
        },
    }
}

/// The outcome of polling the HTTP API: the summary and its figures, what was
/// captured for the selected route, and the messages to show.
pub struct PollOutcome {
    pub summary: SummarySnapshot,
    pub summary_json: JsonValue,
    pub captured_output: Option<JsonValue>,
    pub notice: Option<String>,
    pub error: Option<String>,
}

pub open spec fn opt_json(o: Option<JsonValue>) -> Option<JsonData> {
    match o {
        Some(v) => Some(v.data()),
        None => None,
    }
}

/// Whether polling for `selected` needs a second request besides the summary.
pub open spec fn route_needed(selected: Option<Seq<char>>) -> bool {
    selected matches Some(p) && p != summary_path_text()
}

/// The notice after a summary poll for `selected` whose route request, if one was
/// made, succeeded when `route_ok`.
pub open spec fn poll_notice(selected: Option<Seq<char>>, route_ok: bool) -> Seq<char> {
    match selected {
        None => "GET /1/summary completed successfully."@,
        Some(p) => if p == summary_path_text() {
            "GET /1/summary completed successfully and its payload was captured."@
        } else if route_ok {
            "GET /1/summary completed successfully and "@ + p + " was captured."@
        } else {
            "GET /1/summary completed successfully, but "@ + p + " failed."@
        },
    }
}

/// What is captured when the route request fails: `{"error": ..., "path": ...}`.
pub open spec fn route_failure_data(path: Seq<char>, error: Seq<char>) -> JsonData {
    JsonData::Object(seq![("error"@, JsonData::Str(error)), ("path"@, JsonData::Str(path))])
}

/// What is captured after a failed poll: `{"error": ...}`.
pub open spec fn error_data(error: Seq<char>) -> JsonData {
    JsonData::Object(seq![("error"@, JsonData::Str(error))])
}

/// The route of the health check, `/1/summary`.
pub fn health_route() -> (r: String)
    ensures
        r@ == summary_path_text(),
{
    string_of(&summary_path_chars())
}

fn is_summary_path(s: &str) -> (r: bool)
    ensures
        r == (s@ == summary_path_text()),
{
    chars_eq(&chars_of(s), &summary_path_chars())
}

fn concat3(a: &str, b: &str, c: &str) -> (r: String)
    ensures
        r@ == a@ + b@ + c@,
{
    let mut out = chars_of(a);
    append_chars(&mut out, &chars_of(b));
    append_chars(&mut out, &chars_of(c));
    string_of(&out)
}

fn single_member(key: &str, value: JsonValue) -> (r: JsonValue)
    ensures
        r.data() == JsonData::Object(seq![(key@, value.data())]),
{
    let members = vec![JsonMember { key: owned(key), value }];
    proof {
        lemma_members_data(members@);
    }
    let r = JsonValue::Object(members);
    assert(members_data(members@) =~= seq![(key@, members@[0].value.data())]);
    r
}

/// The `{"error": ...}` value captured after a failed poll.
pub fn error_json(error: &str) -> (r: JsonValue)
    ensures
        r.data() == error_data(error@),
{
    single_member("error", JsonValue::Str(owned(error)))
}

/// Whether polling for `selected` needs a second request besides the summary.
pub fn needs_route_request(selected: Option<&str>) -> (r: bool)
    ensures
        r == route_needed(opt_str(selected)),
{
    match selected {
        Some(p) => !is_summary_path(p),
        None => false,
    }
}

pub open spec fn opt_str(o: Option<&str>) -> Option<Seq<char>> {
    match o {
        Some(t) => Some(t@),
        None => None,
    }
}

/// The outcome of a poll whose summary request returned `summary_json`: for a
/// selected route other than the summary, `route` holds the result of its request.
pub fn poll_outcome(
    summary_json: JsonValue,
    selected: Option<&str>,
    route: Option<Result<JsonValue, String>>,
) -> (r: PollOutcome)
    requires
        route_needed(opt_str(selected)) ==> route is Some,
    ensures
        r.summary@ == summary_data(summary_json.data()),
        r.summary_json.data() == summary_json.data(),
        !route_needed(opt_str(selected)) ==> {
            &&& opt_json(r.captured_output) == (if selected is Some {
                Some(summary_json.data())
            } else {
                None
            })
            &&& opt_string_view(r.notice) == Some(poll_notice(opt_str(selected), true))
            &&& r.error is None
        },
        route_needed(opt_str(selected)) ==> match route {
            Some(Ok(v)) => {
                &&& opt_json(r.captured_output) == Some(v.data())
                &&& opt_string_view(r.notice) == Some(poll_notice(opt_str(selected), true))
                &&& r.error is None
            },
            Some(Err(e)) => {
                &&& opt_json(r.captured_output) == Some(
                    route_failure_data(opt_str(selected)->0, e@),
                )
                &&& opt_string_view(r.notice) == Some(poll_notice(opt_str(selected), false))
                &&& opt_string_view(r.error) == Some(e@)
            },
            None => false,
        },
{
    let summary = SummarySnapshot::from_summary(&summary_json);
    match selected {
        None => PollOutcome {
            summary,
            summary_json,
            captured_output: None,
            notice: Some(owned("GET /1/summary completed successfully.")),
            error: None,
        },
        Some(path) => {
            if is_summary_path(path) {
                let captured = copy_json(&summary_json);
                PollOutcome {
                    summary,
                    summary_json,
                    captured_output: Some(captured),
                    notice: Some(
                        owned("GET /1/summary completed successfully and its payload was captured."),
                    ),
                    error: None,
                }
            } else {
                match route {
                    Some(Ok(value)) => PollOutcome {
                        summary,
                        summary_json,
                        captured_output: Some(value),
                        notice: Some(
                            concat3(
                                "GET /1/summary completed successfully and ",
                                path,
                                " was captured.",
                            ),
                        ),
                        error: None,
                    },
                    Some(Err(route_error)) => {
                        let members = vec![
                            JsonMember {
                                key: owned("error"),
                                value: JsonValue::Str(route_error.clone()),
                            },
                            JsonMember { key: owned("path"), value: JsonValue::Str(owned(path)) },
                        ];
                        proof {
                            lemma_members_data(members@);
                            assert(members_data(members@) =~= seq![
                                ("error"@, JsonData::Str(route_error@)),
                                ("path"@, JsonData::Str(path@)),
                            ]);
                        }
                        PollOutcome {
                            summary,
                            summary_json,
                            captured_output: Some(JsonValue::Object(members)),
                            notice: Some(
                                concat3(
                                    "GET /1/summary completed successfully, but ",
                                    path,
                                    " failed.",
                                ),
                            ),
                            error: Some(route_error),
                        }
                    },
                    None => {
                        proof {
                            assert(false);
                        }
                        PollOutcome {
                            summary,
                            summary_json,
                            captured_output: None,
                            notice: None,
                            error: None,
                        }
                    },
                }
            }
        },
    }
}


/// Whether some route in `es` is safe to poll and has path `p`.
pub open spec fn has_safe_path(es: Seq<EndpointModel>, p: Seq<char>) -> bool {
    exists|i: int| 0 <= i < es.len() && (#[trigger] es[i]).safe_to_poll && es[i].path == p
}

/// The selected route kept valid: the selection when it names a route safe to poll,
/// else the default route, else nothing.
pub open spec fn ensured_selection(es: Seq<EndpointModel>, selected: Seq<char>) -> Seq<char> {
    if has_safe_path(es, selected) {
        selected
    } else {
        match default_endpoint_path(es) {
            Some(p) => p,
            None => seq![],
        }
    }
}

/// The paths of the routes safe to poll, in order.
pub open spec fn safe_paths(es: Seq<EndpointModel>) -> Seq<Seq<char>>
    decreases es.len(),
{
    if es.len() == 0 {
        seq![]
    } else if es.last().safe_to_poll {
        safe_paths(es.drop_last()).push(es.last().path)
    } else {
        safe_paths(es.drop_last())
    }
}

/// The selection is always kept on a route safe to poll: after it is kept valid it
/// names a route of `es` that is safe to poll whenever there is one, and nothing
/// otherwise; keeping it valid a second time changes nothing.
pub proof fn law_selection_is_safe(es: Seq<EndpointModel>, selected: Seq<char>)
    requires
        routes_well_formed(es),
    ensures
        (exists|i: int| 0 <= i < es.len() && (#[trigger] es[i]).safe_to_poll) ==> has_safe_path(
            es,
            ensured_selection(es, selected),
        ),
        !(exists|i: int| 0 <= i < es.len() && (#[trigger] es[i]).safe_to_poll)
            ==> ensured_selection(es, selected) == Seq::<char>::empty(),
        ensured_selection(es, ensured_selection(es, selected)) == ensured_selection(es, selected),
{
    law_default_route_is_safe(es);
    if !has_safe_path(es, selected) {
        match default_endpoint_path(es) {
            Some(p) => {
                assert(has_safe_path(es, p));
            },
            None => {
                if has_safe_path(es, Seq::<char>::empty()) {
                    let i = choose|i: int|
                        0 <= i < es.len() && (#[trigger] es[i]).safe_to_poll && es[i].path
                            == Seq::<char>::empty();
                    assert(es[i].safe_to_poll);
                }
            },
        }
    } else {
        let i = choose|i: int|
            0 <= i < es.len() && (#[trigger] es[i]).safe_to_poll && es[i].path == selected;
        assert(es[i].safe_to_poll);
    }
}

/// Saved settings fill the form so that it describes them again: with the host and
/// token already trimmed, a host that is not blank, an `http` or `https` transport, a
/// poll interval above zero and a preferred route that is documented and safe to poll,
/// the form filled from the settings (the port and the poll interval as decimal text,
/// the selection kept valid) gives back exactly the settings.
pub proof fn law_saved_settings_fill_the_form(s: SettingsData, es: Seq<EndpointModel>)
    requires
        trim(s.api_host) == s.api_host,
        s.api_host.len() > 0,
        s.api_transport == http_text() || s.api_transport == https_text(),
        trim(s.api_access_token) == s.api_access_token,
        s.poll_frequency_seconds > 0,
        has_safe_path(es, s.preferred_endpoint),
    ensures
        form_settings(
            s.api_host,
            decimal(s.api_port as nat),
            s.api_transport,
            s.api_access_token,
            decimal(s.poll_frequency_seconds as nat),
            es,
            ensured_selection(es, s.preferred_endpoint),
        ) == Ok::<SettingsData, Seq<char>>(s),
{
    law_decimal_text_parses_back(s.api_port as nat);
    law_decimal_text_parses_back(s.poll_frequency_seconds as nat);
    lemma_decimal_digits(s.api_port as nat);
    lemma_decimal_digits(s.poll_frequency_seconds as nat);
    lemma_transport_fixed(s.api_transport, http_text());
    lemma_first_path_index(es, s.preferred_endpoint);
    let i = choose|i: int|
        0 <= i < es.len() && (#[trigger] es[i]).safe_to_poll && es[i].path == s.preferred_endpoint;
    assert(es[i].path == s.preferred_endpoint);
    assert(first_path_index(es, s.preferred_endpoint) < es.len());
    assert(number_or(decimal(s.api_port as nat), 80, u16::MAX as nat) == Some(s.api_port as nat));
    assert(number_or(decimal(s.poll_frequency_seconds as nat), 10, u64::MAX as nat) == Some(
        s.poll_frequency_seconds as nat,
    ));
}

/// What the form saves loads back unchanged: when the form describes settings and its
/// selection names a route safe to poll whose path starts with `/` and carries no
/// surrounding whitespace, normalizing the saved settings on load changes nothing,
/// and the form filled from them describes the same settings again.
pub proof fn law_saved_settings_load_back(
    host: Seq<char>,
    port: Seq<char>,
    transport: Seq<char>,
    token: Seq<char>,
    poll: Seq<char>,
    es: Seq<EndpointModel>,
    selected: Seq<char>,
)
    requires
        form_settings(host, port, transport, token, poll, es, selected) is Ok,
        has_safe_path(es, selected),
        starts_with(selected, seq!['/']),
        trim(selected) == selected,
    ensures
        ({
            let s = form_settings(host, port, transport, token, poll, es, selected)->Ok_0;
            &&& transport_or(s.api_transport, http_text()) == s.api_transport
            &&& endpoint_or_summary(s.preferred_endpoint) == s.preferred_endpoint
            &&& form_settings(
                s.api_host,
                decimal(s.api_port as nat),
                s.api_transport,
                s.api_access_token,
                decimal(s.poll_frequency_seconds as nat),
                es,
                ensured_selection(es, s.preferred_endpoint),
            ) == Ok::<SettingsData, Seq<char>>(s)
        }),
{
    let s = form_settings(host, port, transport, token, poll, es, selected)->Ok_0;
    lemma_first_path_index(es, selected);
    let i = choose|i: int| 0 <= i < es.len() && (#[trigger] es[i]).safe_to_poll && es[i].path == selected;
    assert(es[i].path == selected);
    assert(first_path_index(es, selected) < es.len());
    assert(s.preferred_endpoint == selected);
    law_transport_normalization_is_stable(transport);
    lemma_trim_idempotent(host);
    lemma_trim_idempotent(token);
    if trim(host).len() == 0 {
        assert(s.api_host == default_host_text());
        lemma_trim_fixed(default_host_text());
    } else {
        assert(s.api_host == trim(host));
    }
    assert(s.api_host.len() > 0);
    assert(trim(s.api_host) == s.api_host);
    assert(selected.len() > 0) by {
        assert(selected.subrange(0, 1) =~= seq!['/']);
    }
    law_saved_settings_fill_the_form(s, es);
}

/// The notes for the route `selected`: the description of the first route with that
/// path when it is not empty, else a pointer to the reference.
pub open spec fn route_notes_text(es: Seq<EndpointModel>, selected: Seq<char>) -> Seq<char> {
    let i = first_path_index(es, selected);
    if i < es.len() && es[i].description.len() > 0 {
        es[i].description
    } else {
        "Documented in http-api.output."@
    }
}

/// The text shown when nothing has been captured for the selected route.
pub open spec fn nothing_captured_text() -> Seq<char> {
    "No API response has been captured yet. Select a route and press Poll."@
}

/// The fields as copyable text: `label: value` lines.
pub open spec fn fields_text(fs: Seq<(Seq<char>, Seq<char>)>) -> Seq<char> {
    if fs.len() == 0 {
        nothing_captured_text()
    } else {
        join(Seq::new(fs.len(), |i: int| fs[i].0 + ": "@ + fs[i].1), seq!['\n'])
    }
}

/// The state of the monitor apart from its window: the screen and tab, the routes,
/// the connection status, the last summary, the selected route and what was captured
/// for it, the messages, and the settings form.
pub struct MonitorState {
    pub screen: Screen,
    pub view: crate::tabs::View,
    pub api_endpoints: Vec<ApiEndpointSpec>,
    pub connection_status: String,
    pub last_poll: String,
    pub summary: SummarySnapshot,
    pub last_summary_json: Option<JsonValue>,
    pub selected_endpoint: String,
    pub selected_output: Option<JsonValue>,
    pub error: Option<String>,
    pub notice: Option<String>,
    pub api_host_input: String,
    pub api_port_input: String,
    pub api_transport_input: String,
    pub api_access_token_input: String,
    pub poll_frequency_input: String,
}

/// An edit of the settings form, or a change of dashboard tab.
pub enum FormInput {
    ApiHost(String),
    ApiPort(String),
    ApiTransport(String),
    ApiAccessToken(String),
    PollFrequency(String),
    Tab(crate::tabs::View),
}

/// The steps that change the monitor's state, one for each state-changing method.
pub enum Transition {
    SelectionKept,
    PollApplied,
    Disconnected,
    RouteSelected,
    RefreshStarted,
    ManualPollStarted,
    SaveStarted,
    Saved,
    SaveFailed,
    SaveVerificationFailed,
    SaveChecked,
    ConnectStarted,
    InitialConnectReported,
    WindowSaveFailed,
    Edited,
}

/// The screen after a step: a completed save opens the dashboard; every other step
/// keeps the screen.
pub open spec fn screen_after(screen: Screen, step: Transition) -> Screen {
    match step {
        Transition::Saved => Screen::Dashboard,
        _ => screen,
    }
}

/// The screen after the steps, in order.
pub open spec fn screen_after_all(screen: Screen, steps: Seq<Transition>) -> Screen
    decreases steps.len(),
{
    if steps.len() == 0 {
        screen
    } else {
        screen_after(screen_after_all(screen, steps.drop_last()), steps.last())
    }
}

/// The screen changes only through a completed save, and the dashboard, once shown,
/// is never left: whatever steps follow, the monitor stays on the dashboard.
pub proof fn law_dashboard_is_never_left(screen: Screen, steps: Seq<Transition>)
    ensures
        screen == Screen::Dashboard ==> screen_after_all(screen, steps) == Screen::Dashboard,
        screen_after_all(screen, steps) != screen ==> exists|i: int|
            0 <= i < steps.len() && (#[trigger] steps[i]) matches Transition::Saved,
    decreases steps.len(),
{
    if steps.len() > 0 {
        let rest = steps.drop_last();
        law_dashboard_is_never_left(screen, rest);
        if screen_after_all(screen, steps) != screen {
            if screen_after_all(screen, rest) != screen {
                let i = choose|i: int| 0 <= i < rest.len() && (#[trigger] rest[i]) matches Transition::Saved;
                assert(steps[i] == rest[i]);
            } else {
                assert(steps[steps.len() - 1] matches Transition::Saved);
            }
        }
    }
}

/// A successful poll applied to `before`, giving `after`: connected, the summary and
/// its figures kept, the outcome's messages shown; the captured output replaces what
/// is shown, else the summary is shown when the summary route is selected or nothing
/// is shown yet; the routes, the selection and the form unchanged.
pub open spec fn poll_applied(before: MonitorState, after: MonitorState, outcome: PollOutcome) -> bool {
    &&& after.connection_status@ == "Connected"@
    &&& after.summary == outcome.summary
    &&& opt_json(after.last_summary_json) == Some(outcome.summary_json.data())
    &&& after.notice == outcome.notice
    &&& after.error == outcome.error
    &&& opt_json(after.selected_output) == match outcome.captured_output {
        Some(v) => Some(v.data()),
        None => if before.selected_endpoint@ == summary_path_text()
            || before.selected_output is None {
            Some(outcome.summary_json.data())
        } else {
            opt_json(before.selected_output)
        },
    }
    &&& after.api_endpoints == before.api_endpoints
    &&& after.selected_endpoint == before.selected_endpoint
    &&& after.api_host_input == before.api_host_input
    &&& after.api_port_input == before.api_port_input
    &&& after.api_transport_input == before.api_transport_input
    &&& after.api_access_token_input == before.api_access_token_input
    &&& after.poll_frequency_input == before.poll_frequency_input
}

/// What a successful poll leaves shown: a captured output is shown as captured;
/// with nothing captured, the newly polled summary is shown whenever `/1/summary` is
/// selected (replacing whatever was shown for it) or nothing was shown before, and
/// an earlier output of another route stays.
pub proof fn law_poll_shows_the_fresh_output(
    before: MonitorState,
    after: MonitorState,
    outcome: PollOutcome,
)
    requires
        poll_applied(before, after, outcome),
    ensures
        outcome.captured_output matches Some(c) ==> after.shown_output() == Some(c.data()),
        outcome.captured_output is None && before.selected_endpoint@ == "/1/summary"@
            ==> opt_json(after.selected_output) == Some(outcome.summary_json.data())
            && after.shown_output() == Some(outcome.summary_json.data()),
        outcome.captured_output is None && before.selected_output is None ==> after.shown_output()
            == Some(outcome.summary_json.data()),
        outcome.captured_output is None && before.selected_endpoint@ != "/1/summary"@
            && before.selected_output is Some ==> opt_json(after.selected_output) == opt_json(
            before.selected_output,
        ),
{
    reveal_strlit("/1/summary");
    assert(summary_path_text() =~= "/1/summary"@);
}

/// The output shown for the selected route is what was captured for it, whenever
/// something was; only when nothing was captured is the last summary shown, and only
/// for `/1/summary`; otherwise nothing is shown.
pub proof fn law_captured_output_is_shown(s: MonitorState)
    ensures
        s.selected_output matches Some(c) ==> s.shown_output() == Some(c.data()),
        s.selected_output is None && s.selected_endpoint@ == "/1/summary"@ ==> s.shown_output()
            == opt_json(s.last_summary_json),
        s.selected_output is None && s.selected_endpoint@ != "/1/summary"@ ==> s.shown_output()
            is None,
{
    reveal_strlit("/1/summary");
    assert(summary_path_text() =~= "/1/summary"@);
}

/// The notes of a documented route are its description: when the first route with
/// the selected path has a description, the notes are exactly that description,
/// whether or not the route is safe to poll; an undocumented path, or an empty
/// description, gets the pointer to the reference.
pub proof fn law_route_notes_show_the_description(
    es: Seq<EndpointModel>,
    selected: Seq<char>,
    i: int,
)
    ensures
        (0 <= i < es.len() && es[i].path == selected && (forall|j: int|
            0 <= j < i ==> (#[trigger] es[j]).path != selected) && es[i].description.len() > 0)
            ==> route_notes_text(es, selected) == es[i].description,
        (0 <= i < es.len() && es[i].path == selected && (forall|j: int|
            0 <= j < i ==> (#[trigger] es[j]).path != selected) && es[i].description.len() == 0)
            ==> route_notes_text(es, selected) == "Documented in http-api.output."@,
        (forall|j: int| 0 <= j < es.len() ==> (#[trigger] es[j]).path != selected)
            ==> route_notes_text(es, selected) == "Documented in http-api.output."@,
{
    lemma_first_path_index(es, selected);
    let f = first_path_index(es, selected);
    if 0 <= i < es.len() && es[i].path == selected && (forall|j: int|
        0 <= j < i ==> (#[trigger] es[j]).path != selected) {
        if f < i {
            assert(es[f].path == selected);
        }
        if f > i {
            assert(es[i].path != selected);
        }
        assert(f == i);
    }
    if forall|j: int| 0 <= j < es.len() ==> (#[trigger] es[j]).path != selected {
        if f < es.len() {
            assert(es[f].path == selected);
        }
    }
}

impl MonitorState {
    /// The routes as models.
    pub open spec fn endpoints(&self) -> Seq<EndpointModel> {
        endpoint_views(self.api_endpoints@)
    }

    /// The settings the form describes, or the message of the first field in error.
    pub open spec fn form(&self) -> Result<SettingsData, Seq<char>> {
        form_settings(
            self.api_host_input@,
            self.api_port_input@,
            self.api_transport_input@,
            self.api_access_token_input@,
            self.poll_frequency_input@,
            self.endpoints(),
            self.selected_endpoint@,
        )
    }

    /// What is shown for the selected route: what was captured, else the last summary
    /// when the summary route is selected.
    pub open spec fn shown_output(&self) -> Option<JsonData> {
        match self.selected_output {
            Some(v) => Some(v.data()),
            None => if self.selected_endpoint@ == summary_path_text() {
                opt_json(self.last_summary_json)
            } else {
                None
            },
        }
    }

    /// The settings the form describes, or the message of the first field in error.
    pub fn settings_from_inputs(&self) -> (r: Result<Settings, String>)
        ensures
            match r {
                Ok(s) => self.form() == Ok::<SettingsData, Seq<char>>(s@),
                Err(e) => self.form() == Err::<SettingsData, Seq<char>>(e@),
            },
    {
        let defaults = Settings::default();
        let api_host = trimmed_or_default(self.api_host_input.as_str(), defaults.api_host.as_str());
        let api_port = match parse_or_default_u16(
            self.api_port_input.as_str(),
            defaults.api_port,
            "HTTP API port must be a valid number between 0 and 65535.",
        ) {
            Ok(p) => p,
            Err(e) => return Err(e),
        };
        let poll_frequency_seconds = match parse_or_default_u64(
            self.poll_frequency_input.as_str(),
            defaults.poll_frequency_seconds,
            "Poll frequency must be a valid number of seconds.",
        ) {
            Ok(p) => p,
            Err(e) => return Err(e),
        };
        if poll_frequency_seconds == 0 {
            return Err(owned("Poll frequency must be greater than zero."));
        }
        proof {
            lemma_first_path_index(self.endpoints(), self.selected_endpoint@);
        }
        let preferred = match self.selected_endpoint_spec() {
            Some(endpoint) => Some(endpoint.path.clone()),
            None => default_endpoint(self.api_endpoints.as_slice()),
        };
        assert(match preferred {
            Some(p) => preferred_path(self.endpoints(), self.selected_endpoint@) == Some(p@),
            None => preferred_path(self.endpoints(), self.selected_endpoint@) is None,
        });
        let preferred_endpoint = match preferred {
            Some(p) => p,
            None => return Err(owned("No safe HTTP API routes were loaded from http-api.output.")),
        };
        assert(number_or(self.api_port_input@, 80, u16::MAX as nat) == Some(api_port as nat));
        assert(number_or(self.poll_frequency_input@, 10, u64::MAX as nat) == Some(
            poll_frequency_seconds as nat,
        ));
        let r = Settings {
            api_host,
            api_port,
            api_transport: normalize_transport(self.api_transport_input.as_str(), "http"),
            api_access_token: string_of(&trimmed(&chars_of(self.api_access_token_input.as_str()))),
            poll_frequency_seconds,
            preferred_endpoint,
        };
        proof {
            reveal_strlit("http");
            assert("http"@ =~= http_text());
        }
        Ok(r)
    }

    /// The settings the form describes, or the defaults when it has an error.
    pub fn settings_snapshot(&self) -> (r: Settings)
        ensures
            r@ == match self.form() {
                Ok(s) => s,
                Err(_) => default_settings(),
            },
    {
        match self.settings_from_inputs() {
            Ok(s) => s,
            Err(_) => Settings::default(),
        }
    }

    /// The first route whose path is the selected one.
    pub fn selected_endpoint_spec(&self) -> (r: Option<&ApiEndpointSpec>)
        ensures
            first_path_index(self.endpoints(), self.selected_endpoint@) < self.endpoints().len()
                ==> (r matches Some(e) && e@ == self.endpoints()[first_path_index(
                self.endpoints(),
                self.selected_endpoint@,
            )]),
            first_path_index(self.endpoints(), self.selected_endpoint@) == self.endpoints().len()
                ==> r is None,
    {
        let ghost es = self.endpoints();
        let sel = chars_of(self.selected_endpoint.as_str());
        proof {
            lemma_first_path_index(es, sel@);
        }
        let mut i: usize = 0;
        while i < self.api_endpoints.len()
            invariant
                i <= self.api_endpoints@.len(),
                es == endpoint_views(self.api_endpoints@),
                sel@ == self.selected_endpoint@,
                0 <= first_path_index(es, sel@) <= es.len(),
                first_path_index(es, sel@) < es.len() ==> es[first_path_index(es, sel@)].path
                    == sel@,
                i <= first_path_index(es, sel@),
            decreases self.api_endpoints.len() - i,
        {
            let p = chars_of(self.api_endpoints[i].path.as_str());
            if chars_eq(&p, &sel) {
                assert(first_path_index(es, sel@) == i) by {
                    if first_path_index(es, sel@) > i {
                        lemma_first_path_index(es, sel@);
                        assert(es[i as int].path != sel@);
                    }
                }
                return Some(&self.api_endpoints[i]);
            }
            i += 1;
        }
        None
    }

    /// The paths of the routes safe to poll, in order.
    pub fn safe_endpoint_paths(&self) -> (r: Vec<String>)
        ensures
            string_views(r@) == safe_paths(self.endpoints()),
    {
        let ghost es = self.endpoints();
        let mut out: Vec<String> = Vec::new();
        let mut i: usize = 0;
        while i < self.api_endpoints.len()
            invariant
                i <= self.api_endpoints@.len(),
                es == endpoint_views(self.api_endpoints@),
                string_views(out@) == safe_paths(es.subrange(0, i as int)),
            decreases self.api_endpoints.len() - i,
        {
            let ghost prev = out@;
            assert(es.subrange(0, i + 1).drop_last() =~= es.subrange(0, i as int));
            assert(es.subrange(0, i + 1).last() == es[i as int]);
            if self.api_endpoints[i].safe_to_poll {
                out.push(self.api_endpoints[i].path.clone());
                assert(string_views(out@) =~= string_views(prev).push(es[i as int].path));
            }
            i += 1;
        }
        assert(es.subrange(0, es.len() as int) =~= es);
        out
    }

    /// Keeps the selection on a route safe to poll: when it names none, the default
    /// route is selected, or nothing when there is none.
    pub fn ensure_selected_endpoint(&mut self)
        ensures
            final(self).selected_endpoint@ == ensured_selection(
                old(self).endpoints(),
                old(self).selected_endpoint@,
            ),
            final(self).api_endpoints == old(self).api_endpoints,
            final(self).selected_output == old(self).selected_output,
            final(self).last_summary_json == old(self).last_summary_json,
            final(self).error == old(self).error,
            final(self).notice == old(self).notice,
            final(self).screen == screen_after(old(self).screen, Transition::SelectionKept),
            final(self).view == old(self).view,
            final(self).connection_status == old(self).connection_status,
            final(self).last_poll == old(self).last_poll,
            final(self).summary == old(self).summary,
            final(self).api_host_input == old(self).api_host_input,
            final(self).api_port_input == old(self).api_port_input,
            final(self).api_transport_input == old(self).api_transport_input,
            final(self).api_access_token_input == old(self).api_access_token_input,
            final(self).poll_frequency_input == old(self).poll_frequency_input,
    {
        let ghost es = self.endpoints();
        let sel = chars_of(self.selected_endpoint.as_str());
        let mut valid = false;
        let mut i: usize = 0;
        while i < self.api_endpoints.len()
            invariant
                i <= self.api_endpoints@.len(),
                es == endpoint_views(self.api_endpoints@),
                sel@ == self.selected_endpoint@,
                valid == exists|k: int|
                    0 <= k < i && (#[trigger] es[k]).safe_to_poll && es[k].path == sel@,
            decreases self.api_endpoints.len() - i,
        {
            if self.api_endpoints[i].safe_to_poll {
                let p = chars_of(self.api_endpoints[i].path.as_str());
                if chars_eq(&p, &sel) {
                    assert(es[i as int].safe_to_poll && es[i as int].path == sel@);
                    valid = true;
                }
            }
            i += 1;
        }
        if !valid {
            self.selected_endpoint = match default_endpoint(self.api_endpoints.as_slice()) {
                Some(p) => p,
                None => String::new(),
            };
        }
    }

    /// The state of a freshly started monitor: with saved settings, the dashboard with
    /// the form filled from them; without, the setup screen with an empty form and a
    /// hint. The selection starts at the preferred route, kept valid.
    pub fn initial(
        settings: &Settings,
        settings_exist: bool,
        load_error: Option<String>,
        api_endpoints: Vec<ApiEndpointSpec>,
    ) -> (r: MonitorState)
        ensures
            r.screen == (if settings_exist {
                Screen::Dashboard
            } else {
                Screen::Setup
            }),
            r.view == crate::tabs::View::Home,
            r.api_endpoints == api_endpoints,
            r.connection_status@ == "Disconnected"@,
            r.last_poll@ == "Never"@,
            r.summary@ == empty_snapshot(),
            r.last_summary_json is None,
            r.selected_endpoint@ == ensured_selection(
                endpoint_views(api_endpoints@),
                settings.preferred_endpoint@,
            ),
            r.selected_output is None,
            r.error == load_error,
            opt_string_view(r.notice) == (if settings_exist {
                None
            } else {
                Some(setup_hint_text())
            }),
            r.api_host_input@ == (if settings_exist {
                settings.api_host@
            } else {
                seq![]
            }),
            r.api_port_input@ == (if settings_exist {
                decimal(settings.api_port as nat)
            } else {
                seq![]
            }),
            r.api_transport_input@ == (if settings_exist {
                settings.api_transport@
            } else {
                seq![]
            }),
            r.api_access_token_input@ == (if settings_exist {
                settings.api_access_token@
            } else {
                seq![]
            }),
            r.poll_frequency_input@ == (if settings_exist {
                decimal(settings.poll_frequency_seconds as nat)
            } else {
                seq![]
            }),
    {
        let mut port: Vec<char> = Vec::new();
        push_decimal(&mut port, settings.api_port as u64);
        let mut poll: Vec<char> = Vec::new();
        push_decimal(&mut poll, settings.poll_frequency_seconds);
        let mut state = MonitorState {
            screen: if settings_exist {
                Screen::Dashboard
            } else {
                Screen::Setup
            },
            view: crate::tabs::View::Home,
            api_endpoints,
            connection_status: owned("Disconnected"),
            last_poll: owned("Never"),
            summary: SummarySnapshot::default(),
            last_summary_json: None,
            selected_endpoint: settings.preferred_endpoint.clone(),
            selected_output: None,
            error: load_error,
            notice: if settings_exist {
                None
            } else {
                Some(owned("Enter the xmrigcc-proxy HTTP API settings and verify GET /1/summary."))
            },
            api_host_input: if settings_exist {
                settings.api_host.clone()
            } else {
                String::new()
            },
            api_port_input: if settings_exist {
                string_of(&port)
            } else {
                String::new()
            },
            api_transport_input: if settings_exist {
                settings.api_transport.clone()
            } else {
                String::new()
            },
            api_access_token_input: if settings_exist {
                settings.api_access_token.clone()
            } else {
                String::new()
            },
            poll_frequency_input: if settings_exist {
                string_of(&poll)
            } else {
                String::new()
            },
        };
        state.ensure_selected_endpoint();
        state
    }

    /// Applies a successful poll taken at `polled_at` (see `poll_applied`).
    pub fn apply_poll(&mut self, outcome: PollOutcome, polled_at: String)
        ensures
            poll_applied(*old(self), *final(self), outcome),
            final(self).last_poll == polled_at,
            final(self).screen == screen_after(old(self).screen, Transition::PollApplied),
            final(self).view == old(self).view,
    {
        self.connection_status = owned("Connected");
        self.last_poll = polled_at;
        self.summary = outcome.summary;
        self.last_summary_json = Some(copy_json(&outcome.summary_json));
        self.notice = outcome.notice;
        self.error = outcome.error;
        match outcome.captured_output {
            Some(output) => {
                self.selected_output = Some(output);
            },
            None => {
                if is_summary_path(self.selected_endpoint.as_str()) || self.selected_output.is_none() {
                    self.selected_output = Some(outcome.summary_json);
                }
            },
        }
    }


    /// Applies a failed poll: disconnected, the figures and summary dropped, the error
    /// shown; with `capture_output`, `{"error": ...}` is shown for the route.
    pub fn apply_disconnect(&mut self, error: String, capture_output: bool)
        ensures
            final(self).connection_status@ == "Disconnected"@,
            opt_string_view(final(self).notice) == Some("HTTP API status check failed."@),
            final(self).error == Some(error),
            final(self).summary@ == empty_snapshot(),
            final(self).last_summary_json is None,
            capture_output ==> opt_json(final(self).selected_output) == Some(error_data(error@)),
            !capture_output ==> final(self).selected_output == old(self).selected_output,
            final(self).screen == screen_after(old(self).screen, Transition::Disconnected),
            final(self).view == old(self).view,
            final(self).api_endpoints == old(self).api_endpoints,
            final(self).last_poll == old(self).last_poll,
            final(self).selected_endpoint == old(self).selected_endpoint,
            final(self).api_host_input == old(self).api_host_input,
            final(self).api_port_input == old(self).api_port_input,
            final(self).api_transport_input == old(self).api_transport_input,
            final(self).api_access_token_input == old(self).api_access_token_input,
            final(self).poll_frequency_input == old(self).poll_frequency_input,
    {
        self.connection_status = owned("Disconnected");
        self.notice = Some(owned("HTTP API status check failed."));
        if capture_output {
            self.selected_output = Some(error_json(error.as_str()));
        }
        self.error = Some(error);
        self.summary = SummarySnapshot::default();
        self.last_summary_json = None;
    }

    /// Selects the route `path`; the last summary is shown for the summary route,
    /// nothing for the others until they are polled.
    pub fn select_endpoint(&mut self, path: String)
        ensures
            final(self).selected_endpoint == path,
            opt_json(final(self).selected_output) == (if path@ == summary_path_text() {
                opt_json(old(self).last_summary_json)
            } else {
                None
            }),
            final(self).screen == screen_after(old(self).screen, Transition::RouteSelected),
            final(self).view == old(self).view,
            final(self).api_endpoints == old(self).api_endpoints,
            final(self).connection_status == old(self).connection_status,
            final(self).last_poll == old(self).last_poll,
            final(self).summary == old(self).summary,
            final(self).last_summary_json == old(self).last_summary_json,
            final(self).error == old(self).error,
            final(self).notice == old(self).notice,
            final(self).api_host_input == old(self).api_host_input,
            final(self).api_port_input == old(self).api_port_input,
            final(self).api_transport_input == old(self).api_transport_input,
            final(self).api_access_token_input == old(self).api_access_token_input,
            final(self).poll_frequency_input == old(self).poll_frequency_input,
    {
        let is_summary = is_summary_path(path.as_str());
        self.selected_endpoint = path;
        self.selected_output = if is_summary {
            match &self.last_summary_json {
                Some(v) => Some(copy_json(v)),
                None => None,
            }
        } else {
            None
        };
    }

    /// Starts a status refresh: messages cleared; the settings to poll with, or none
    /// when the form has an error, which is then shown.
    pub fn begin_refresh(&mut self) -> (r: Option<Settings>)
        ensures
            final(self).notice is None,
            match old(self).form() {
                Ok(s) => r matches Some(t) && t@ == s && final(self).error is None,
                Err(e) => r is None && opt_string_view(final(self).error) == Some(e),
            },
            final(self).screen == screen_after(old(self).screen, Transition::RefreshStarted),
            final(self).view == old(self).view,
            final(self).api_endpoints == old(self).api_endpoints,
            final(self).connection_status == old(self).connection_status,
            final(self).last_poll == old(self).last_poll,
            final(self).summary == old(self).summary,
            final(self).last_summary_json == old(self).last_summary_json,
            final(self).selected_endpoint == old(self).selected_endpoint,
            final(self).selected_output == old(self).selected_output,
            final(self).api_host_input == old(self).api_host_input,
            final(self).api_port_input == old(self).api_port_input,
            final(self).api_transport_input == old(self).api_transport_input,
            final(self).api_access_token_input == old(self).api_access_token_input,
            final(self).poll_frequency_input == old(self).poll_frequency_input,
    {
        self.error = None;
        self.notice = None;
        match self.settings_from_inputs() {
            Ok(settings) => Some(settings),
            Err(error) => {
                self.error = Some(error);
                None
            },
        }
    }

    /// Starts a manual poll of the selected route: messages cleared; the settings to
    /// poll with, or none when the form has an error, which is then shown and captured
    /// as `{"error": ...}`.
    pub fn begin_manual_poll(&mut self) -> (r: Option<Settings>)
        ensures
            final(self).notice is None,
            match old(self).form() {
                Ok(s) => r matches Some(t) && t@ == s && final(self).error is None
                    && final(self).selected_output == old(self).selected_output,
                Err(e) => r is None && opt_string_view(final(self).error) == Some(e) && opt_json(
                    final(self).selected_output,
                ) == Some(error_data(e)),
            },
            final(self).screen == screen_after(old(self).screen, Transition::ManualPollStarted),
            final(self).view == old(self).view,
            final(self).api_endpoints == old(self).api_endpoints,
            final(self).connection_status == old(self).connection_status,
            final(self).last_poll == old(self).last_poll,
            final(self).summary == old(self).summary,
            final(self).last_summary_json == old(self).last_summary_json,
            final(self).selected_endpoint == old(self).selected_endpoint,
            final(self).api_host_input == old(self).api_host_input,
            final(self).api_port_input == old(self).api_port_input,
            final(self).api_transport_input == old(self).api_transport_input,
            final(self).api_access_token_input == old(self).api_access_token_input,
            final(self).poll_frequency_input == old(self).poll_frequency_input,
    {
        self.error = None;
        self.notice = None;
        match self.settings_from_inputs() {
            Ok(settings) => Some(settings),
            Err(error) => {
                self.selected_output = Some(error_json(error.as_str()));
                self.error = Some(error);
                None
            },
        }
    }

    /// Starts saving the form: messages cleared; the settings to verify and save, or
    /// the form's error.
    pub fn begin_save(&mut self) -> (r: Result<Settings, String>)
        ensures
            final(self).notice is None,
            final(self).error is None,
            match r {
                Ok(s) => old(self).form() == Ok::<SettingsData, Seq<char>>(s@),
                Err(e) => old(self).form() == Err::<SettingsData, Seq<char>>(e@),
            },
            final(self).screen == screen_after(old(self).screen, Transition::SaveStarted),
            final(self).view == old(self).view,
            final(self).api_endpoints == old(self).api_endpoints,
            final(self).connection_status == old(self).connection_status,
            final(self).last_poll == old(self).last_poll,
            final(self).summary == old(self).summary,
            final(self).last_summary_json == old(self).last_summary_json,
            final(self).selected_endpoint == old(self).selected_endpoint,
            final(self).selected_output == old(self).selected_output,
            final(self).api_host_input == old(self).api_host_input,
            final(self).api_port_input == old(self).api_port_input,
            final(self).api_transport_input == old(self).api_transport_input,
            final(self).api_access_token_input == old(self).api_access_token_input,
            final(self).poll_frequency_input == old(self).poll_frequency_input,
    {
        self.error = None;
        self.notice = None;
        self.settings_from_inputs()
    }

    /// Finishes saving after the settings were verified by a poll and written: the poll
    /// taken at `polled_at` is applied (see `poll_applied`) and the dashboard opens on
    /// its home tab.
    pub fn finish_save(&mut self, outcome: PollOutcome, polled_at: String)
        ensures
            poll_applied(*old(self), *final(self), outcome),
            final(self).last_poll == polled_at,
            final(self).screen == screen_after(old(self).screen, Transition::Saved),
            final(self).view == crate::tabs::View::Home,
    {
        self.notice = Some(owned("HTTP API connection verified and settings saved."));
        self.apply_poll(outcome, polled_at);
        self.screen = Screen::Dashboard;
        self.view = crate::tabs::View::Home;
    }

    /// Starts connecting with the form's settings: the error cleared; the settings, or
    /// the form's error.
    pub fn begin_connect(&mut self) -> (r: Result<Settings, String>)
        ensures
            final(self).error is None,
            match r {
                Ok(s) => old(self).form() == Ok::<SettingsData, Seq<char>>(s@),
                Err(e) => old(self).form() == Err::<SettingsData, Seq<char>>(e@),
            },
            final(self).screen == screen_after(old(self).screen, Transition::ConnectStarted),
            final(self).view == old(self).view,
            final(self).api_endpoints == old(self).api_endpoints,
            final(self).connection_status == old(self).connection_status,
            final(self).last_poll == old(self).last_poll,
            final(self).summary == old(self).summary,
            final(self).last_summary_json == old(self).last_summary_json,
            final(self).selected_endpoint == old(self).selected_endpoint,
            final(self).selected_output == old(self).selected_output,
            final(self).notice == old(self).notice,
            final(self).api_host_input == old(self).api_host_input,
            final(self).api_port_input == old(self).api_port_input,
            final(self).api_transport_input == old(self).api_transport_input,
            final(self).api_access_token_input == old(self).api_access_token_input,
            final(self).poll_frequency_input == old(self).poll_frequency_input,
    {
        self.error = None;
        self.settings_from_inputs()
    }

    /// The notes shown for the selected route: its description, or a pointer to the
    /// reference when it has none or is not documented.
    pub fn route_notes(&self) -> (r: String)
        ensures
            r@ == route_notes_text(self.endpoints(), self.selected_endpoint@),
    {
        proof {
            lemma_first_path_index(self.endpoints(), self.selected_endpoint@);
        }
        match self.selected_endpoint_spec() {
            Some(endpoint) => if endpoint.description.as_str().unicode_len() > 0 {
                endpoint.description.clone()
            } else {
                owned("Documented in http-api.output.")
            },
            None => owned("Documented in http-api.output."),
        }
    }

    /// Reports that the check before a save failed: `GET /1/summary` did not succeed,
    /// so the monitor is disconnected and the error is shown; nothing else changes and
    /// nothing is saved.
    pub fn fail_save_verification(&mut self, error: String)
        ensures
            final(self).connection_status@ == "Disconnected"@,
            final(self).error == Some(error),
            final(self).notice == old(self).notice,
            final(self).summary == old(self).summary,
            final(self).last_summary_json == old(self).last_summary_json,
            final(self).selected_output == old(self).selected_output,
            final(self).screen == screen_after(old(self).screen, Transition::SaveVerificationFailed),
            final(self).view == old(self).view,
            final(self).api_endpoints == old(self).api_endpoints,
            final(self).last_poll == old(self).last_poll,
            final(self).selected_endpoint == old(self).selected_endpoint,
            final(self).api_host_input == old(self).api_host_input,
            final(self).api_port_input == old(self).api_port_input,
            final(self).api_transport_input == old(self).api_transport_input,
            final(self).api_access_token_input == old(self).api_access_token_input,
            final(self).poll_frequency_input == old(self).poll_frequency_input,
    {
        self.connection_status = owned("Disconnected");
        self.error = Some(error);
    }

    /// Takes the result of the check made before a save: when `GET /1/summary`
    /// succeeded, the settings to write and the poll to apply once they are written
    /// are handed back and nothing changes yet; when it failed, nothing is handed back,
    /// so nothing is written, and the failure is reported as by
    /// `fail_save_verification`.
    pub fn check_before_save(
        &mut self,
        settings: Settings,
        check: Result<PollOutcome, String>,
    ) -> (r: Option<(Settings, PollOutcome)>)
        ensures
            match check {
                Ok(outcome) => r == Some((settings, outcome)) && *final(self) == *old(self),
                Err(error) => {
                    &&& r is None
                    &&& final(self).connection_status@ == "Disconnected"@
                    &&& final(self).error == Some(error)
                    &&& final(self).notice == old(self).notice
                    &&& final(self).summary == old(self).summary
                    &&& final(self).last_summary_json == old(self).last_summary_json
                    &&& final(self).selected_output == old(self).selected_output
                    &&& final(self).view == old(self).view
                    &&& final(self).api_endpoints == old(self).api_endpoints
                    &&& final(self).last_poll == old(self).last_poll
                    &&& final(self).selected_endpoint == old(self).selected_endpoint
                    &&& final(self).api_host_input == old(self).api_host_input
                    &&& final(self).api_port_input == old(self).api_port_input
                    &&& final(self).api_transport_input == old(self).api_transport_input
                    &&& final(self).api_access_token_input == old(self).api_access_token_input
                    &&& final(self).poll_frequency_input == old(self).poll_frequency_input
                },
            },
            final(self).screen == screen_after(
                old(self).screen,
                if check is Ok {
                    Transition::SaveChecked
                } else {
                    Transition::SaveVerificationFailed
                },
            ),
    {
        match check {
            Ok(outcome) => Some((settings, outcome)),
            Err(error) => {
                self.fail_save_verification(error);
                None
            },
        }
    }

    /// Applies an edit of the form or a change of tab; nothing else changes.
    pub fn edit(&mut self, input: FormInput)
        ensures
            final(self).api_host_input == (match input {
                FormInput::ApiHost(v) => v,
                _ => old(self).api_host_input,
            }),
            final(self).api_port_input == (match input {
                FormInput::ApiPort(v) => v,
                _ => old(self).api_port_input,
            }),
            final(self).api_transport_input == (match input {
                FormInput::ApiTransport(v) => v,
                _ => old(self).api_transport_input,
            }),
            final(self).api_access_token_input == (match input {
                FormInput::ApiAccessToken(v) => v,
                _ => old(self).api_access_token_input,
            }),
            final(self).poll_frequency_input == (match input {
                FormInput::PollFrequency(v) => v,
                _ => old(self).poll_frequency_input,
            }),
            final(self).view == (match input {
                FormInput::Tab(t) => t,
                _ => old(self).view,
            }),
            final(self).screen == screen_after(old(self).screen, Transition::Edited),
            final(self).api_endpoints == old(self).api_endpoints,
            final(self).connection_status == old(self).connection_status,
            final(self).last_poll == old(self).last_poll,
            final(self).summary == old(self).summary,
            final(self).last_summary_json == old(self).last_summary_json,
            final(self).selected_endpoint == old(self).selected_endpoint,
            final(self).selected_output == old(self).selected_output,
            final(self).error == old(self).error,
            final(self).notice == old(self).notice,
    {
        match input {
            FormInput::ApiHost(v) => self.api_host_input = v,
            FormInput::ApiPort(v) => self.api_port_input = v,
            FormInput::ApiTransport(v) => self.api_transport_input = v,
            FormInput::ApiAccessToken(v) => self.api_access_token_input = v,
            FormInput::PollFrequency(v) => self.poll_frequency_input = v,
            FormInput::Tab(t) => self.view = t,
        }
    }

    /// Reports that saving failed: the error is shown and nothing else changes.
    pub fn fail_save(&mut self, error: String)
        ensures
            final(self).error == Some(error),
            final(self).notice == old(self).notice,
            final(self).screen == screen_after(old(self).screen, Transition::SaveFailed),
            final(self).view == old(self).view,
            final(self).api_endpoints == old(self).api_endpoints,
            final(self).connection_status == old(self).connection_status,
            final(self).last_poll == old(self).last_poll,
            final(self).summary == old(self).summary,
            final(self).last_summary_json == old(self).last_summary_json,
            final(self).selected_endpoint == old(self).selected_endpoint,
            final(self).selected_output == old(self).selected_output,
            final(self).api_host_input == old(self).api_host_input,
            final(self).api_port_input == old(self).api_port_input,
            final(self).api_transport_input == old(self).api_transport_input,
            final(self).api_access_token_input == old(self).api_access_token_input,
            final(self).poll_frequency_input == old(self).poll_frequency_input,
    {
        self.error = Some(error);
    }

    /// Reports that the window size could not be saved, unless another error is
    /// already shown.
    pub fn note_window_save_failure(&mut self, detail: &str)
        ensures
            old(self).error is None ==> opt_string_view(final(self).error) == Some(
                "Failed to save window size: "@ + detail@,
            ),
            old(self).error is Some ==> final(self).error == old(self).error,
            final(self).notice == old(self).notice,
            final(self).screen == screen_after(old(self).screen, Transition::WindowSaveFailed),
            final(self).view == old(self).view,
            final(self).api_endpoints == old(self).api_endpoints,
            final(self).connection_status == old(self).connection_status,
            final(self).last_poll == old(self).last_poll,
            final(self).summary == old(self).summary,
            final(self).last_summary_json == old(self).last_summary_json,
            final(self).selected_endpoint == old(self).selected_endpoint,
            final(self).selected_output == old(self).selected_output,
            final(self).api_host_input == old(self).api_host_input,
            final(self).api_port_input == old(self).api_port_input,
            final(self).api_transport_input == old(self).api_transport_input,
            final(self).api_access_token_input == old(self).api_access_token_input,
            final(self).poll_frequency_input == old(self).poll_frequency_input,
    {
        if self.error.is_none() {
            self.error = Some(concat3("Failed to save window size: ", detail, ""));
            assert(("Failed to save window size: "@ + detail@ + ""@) =~= "Failed to save window size: "@
                + detail@) by {
                reveal_strlit("");
            }
        }
    }

    /// The seconds between status polls while the dashboard is shown; none on the
    /// setup screen, where nothing is polled.
    pub fn status_tick_seconds(&self) -> (r: Option<u64>)
        ensures
            self.screen == Screen::Dashboard ==> r == Some(
                poll_interval(self.poll_frequency_input@) as u64,
            ),
            self.screen == Screen::Setup ==> r is None,
    {
        match self.screen {
            Screen::Dashboard => Some(self.poll_interval()),
            Screen::Setup => None,
        }
    }

    /// Reports how connecting with saved settings at start went.
    pub fn finish_initial_connect(&mut self, result: Result<(), String>)
        ensures
            match result {
                Ok(()) => opt_string_view(final(self).notice) == Some(
                    "Saved settings loaded and GET /1/summary completed successfully."@,
                ) && final(self).error == old(self).error,
                Err(e) => opt_string_view(final(self).notice) == Some(
                    "Saved settings loaded, but GET /1/summary is not reachable."@,
                ) && final(self).error == Some(e),
            },
            final(self).screen == screen_after(old(self).screen, Transition::InitialConnectReported),
            final(self).view == old(self).view,
            final(self).api_endpoints == old(self).api_endpoints,
            final(self).connection_status == old(self).connection_status,
            final(self).last_poll == old(self).last_poll,
            final(self).summary == old(self).summary,
            final(self).last_summary_json == old(self).last_summary_json,
            final(self).selected_endpoint == old(self).selected_endpoint,
            final(self).selected_output == old(self).selected_output,
            final(self).api_host_input == old(self).api_host_input,
            final(self).api_port_input == old(self).api_port_input,
            final(self).api_transport_input == old(self).api_transport_input,
            final(self).api_access_token_input == old(self).api_access_token_input,
            final(self).poll_frequency_input == old(self).poll_frequency_input,
    {
        match result {
            Ok(()) => {
                self.notice = Some(
                    owned("Saved settings loaded and GET /1/summary completed successfully."),
                );
            },
            Err(error) => {
                self.error = Some(error);
                self.notice = Some(owned("Saved settings loaded, but GET /1/summary is not reachable."));
            },
        }
    }

    /// What is shown for the selected route: what was captured, else the last summary
    /// when the summary route is selected.
    pub fn selected_output_value(&self) -> (r: Option<&JsonValue>)
        ensures
            match r {
                Some(v) => self.shown_output() == Some(v.data()),
                None => self.shown_output() is None,
            },
    {
        match &self.selected_output {
            Some(v) => Some(v),
            None => if is_summary_path(self.selected_endpoint.as_str()) {
                match &self.last_summary_json {
                    Some(v) => Some(v),
                    None => None,
                }
            } else {
                None
            },
        }
    }

    /// The fields shown for the selected route.
    pub fn selected_output_fields(&self) -> (r: Vec<OutputField>)
        ensures
            fields_view(r@) == match self.shown_output() {
                Some(v) => endpoint_fields(self.selected_endpoint@, v),
                None => seq![],
            },
    {
        match self.selected_output_value() {
            Some(output) => output_fields_for_endpoint(self.selected_endpoint.as_str(), output),
            None => {
                let r: Vec<OutputField> = Vec::new();
                assert(fields_view(r@) =~= seq![]);
                r
            },
        }
    }

    /// The fields shown for the selected route as copyable `label: value` lines.
    pub fn selected_output_copy_text(&self) -> (r: String)
        ensures
            r@ == fields_text(
                match self.shown_output() {
                    Some(v) => endpoint_fields(self.selected_endpoint@, v),
                    None => seq![],
                },
            ),
    {
        let fields = self.selected_output_fields();
        if fields.len() == 0 {
            assert(fields_view(fields@).len() == 0);
            return owned("No API response has been captured yet. Select a route and press Poll.");
        }
        let ghost fs = fields_view(fields@);
        let mut lines: Vec<Vec<char>> = Vec::new();
        let mut i: usize = 0;
        while i < fields.len()
            invariant
                i <= fields@.len(),
                fs == fields_view(fields@),
                crate::text::views(lines@) == Seq::new(i as nat, |k: int| fs[k].0 + ": "@ + fs[k].1),
            decreases fields.len() - i,
        {
            let ghost prev = lines@;
            let mut line = chars_of(fields[i].label.as_str());
            append_chars(&mut line, &chars_of(": "));
            append_chars(&mut line, &chars_of(fields[i].value.as_str()));
            lines.push(line);
            assert(crate::text::views(lines@) =~= crate::text::views(prev).push(
                fs[i as int].0 + ": "@ + fs[i as int].1,
            ));
            i += 1;
            assert(crate::text::views(lines@) =~= Seq::new(i as nat, |k: int| fs[k].0 + ": "@ + fs[k].1));
        }
        let sep = vec!['\n'];
        assert(sep@ =~= seq!['\n']);
        assert(fs.len() == fields@.len());
        string_of(&crate::text::join_chars(&lines, &sep))
    }

    /// The seconds between status polls set in the form.
    pub fn poll_interval(&self) -> (r: u64)
        ensures
            r == poll_interval(self.poll_frequency_input@),
    {
        poll_interval_seconds(self.poll_frequency_input.as_str())
    }
}

/// The error shown when loading the saved settings failed.
pub fn load_failure_message(detail: &str) -> (r: String)
    ensures
        r@ == "Failed to load settings: "@ + detail@,
{
    let r = concat3("Failed to load settings: ", detail, "");
    assert(r@ =~= "Failed to load settings: "@ + detail@) by {
        reveal_strlit("");
    }
    r
}

/// The error shown when writing the settings failed.
pub fn save_failure_message(detail: &str) -> (r: String)
    ensures
        r@ == "Failed to save settings.json: "@ + detail@,
{
    let r = concat3("Failed to save settings.json: ", detail, "");
    assert(r@ =~= "Failed to save settings.json: "@ + detail@) by {
        reveal_strlit("");
    }
    r
}

/// The hint shown on the setup screen.
pub open spec fn setup_hint_text() -> Seq<char> {
    "Enter the xmrigcc-proxy HTTP API settings and verify GET /1/summary."@
}

} // verus!
