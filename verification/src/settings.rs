use vstd::prelude::*;

use crate::rpc::ApiConnectionSettings;
use crate::text::{
    lemma_trim_fixed, lemma_trim_shape, append_chars, ascii_lowercase, chars_eq, chars_of, decimal, is_whitespace, push_decimal,
    starts_with, string_of, to_ascii_lowercase, trim, trimmed,
};

verus! {

/// `http`.
pub open spec fn http_text() -> Seq<char> {
    seq!['h', 't', 't', 'p']
}

/// `https`.
pub open spec fn https_text() -> Seq<char> {
    seq!['h', 't', 't', 'p', 's']
}

/// `/1/summary`, the health route.
pub open spec fn summary_path_text() -> Seq<char> {
    seq!['/', '1', '/', 's', 'u', 'm', 'm', 'a', 'r', 'y']
}

/// The transport named by `value`: its trimmed text in ASCII lower case when that is
/// `http` or `https`, else `fallback`.
pub open spec fn transport_or(value: Seq<char>, fallback: Seq<char>) -> Seq<char> {
    let lowered = ascii_lowercase(trim(value));
    if lowered == http_text() || lowered == https_text() {
        lowered
    } else {
        fallback
    }
}

/// The route named by `value`: its trimmed text with a leading `/` added where it
/// lacks one; `/1/summary` when the text is blank.
pub open spec fn endpoint_or_summary(value: Seq<char>) -> Seq<char> {
    let t = trim(value);
    if t.len() == 0 {
        summary_path_text()
    } else if starts_with(t, seq!['/']) {
        t
    } else {
        seq!['/'] + t
    }
}

/// The trimmed text, or none when it is blank.
pub open spec fn trimmed_or_absent(value: Seq<char>) -> Option<Seq<char>> {
    if trim(value).len() == 0 {
        None
    } else {
        Some(trim(value))
    }
}

/// The base URL `transport://host:port`, with the transport normalized (falling back
/// to `http`) and the host trimmed.
pub open spec fn api_url(transport: Seq<char>, host: Seq<char>, port: u16) -> Seq<char> {
    transport_or(transport, http_text()) + seq![':', '/', '/'] + trim(host) + seq![':'] + decimal(
        port as nat,
    )
}

/// The saved connection settings of the monitor.
#[derive(Debug, Clone)]
pub struct Settings {
    pub api_host: String,
    pub api_port: u16,
    pub api_transport: String,
    pub api_access_token: String,
    pub poll_frequency_seconds: u64,
    pub preferred_endpoint: String,
}

/// The settings as character sequences and numbers.
pub struct SettingsData {
    pub api_host: Seq<char>,
    pub api_port: u16,
    pub api_transport: Seq<char>,
    pub api_access_token: Seq<char>,
    pub poll_frequency_seconds: u64,
    pub preferred_endpoint: Seq<char>,
}

impl View for Settings {
    type V = SettingsData;

    open spec fn view(&self) -> SettingsData {
        SettingsData {
            api_host: self.api_host@,
            api_port: self.api_port,
            api_transport: self.api_transport@,
            api_access_token: self.api_access_token@,
            poll_frequency_seconds: self.poll_frequency_seconds,
            preferred_endpoint: self.preferred_endpoint@,
        }
    }
}

/// `127.0.0.1`, the default host.
pub open spec fn default_host_text() -> Seq<char> {
    seq!['1', '2', '7', '.', '0', '.', '0', '.', '1']
}

/// The settings used before any are saved.
pub open spec fn default_settings() -> SettingsData {
    SettingsData {
        api_host: default_host_text(),
        api_port: 80,
        api_transport: http_text(),
        api_access_token: seq![],
        poll_frequency_seconds: 10,
        preferred_endpoint: summary_path_text(),
    }
}

impl Default for Settings {
    fn default() -> (r: Self)
        ensures
            r@ == default_settings(),
    {
        Settings {
            api_host: string_of(&vec!['1', '2', '7', '.', '0', '.', '0', '.', '1']),
            api_port: 80,
            api_transport: string_of(&vec!['h', 't', 't', 'p']),
            api_access_token: String::new(),
            poll_frequency_seconds: 10,
            preferred_endpoint: string_of(&summary_path_chars()),
        }
    }
}

/// The characters of `/1/summary`.
pub fn summary_path_chars() -> (r: Vec<char>)
    ensures
        r@ == summary_path_text(),
{
    vec!['/', '1', '/', 's', 'u', 'm', 'm', 'a', 'r', 'y']
}

impl Settings {
    /// The connection that the client is built from: the base URL and the trimmed
    /// access token, absent when blank.
    pub fn api_connection(&self) -> (r: ApiConnectionSettings)
        ensures
            r.base_url@ == api_url(self.api_transport@, self.api_host@, self.api_port),
            match r.access_token {
                Some(t) => trimmed_or_absent(self.api_access_token@) == Some(t@),
                None => trimmed_or_absent(self.api_access_token@) is None,
            },
    {
        ApiConnectionSettings {
            base_url: self.api_url_display(),
            access_token: trimmed_or_none(self.api_access_token.as_str()),
        }
    }

    /// The base URL `transport://host:port`.
    pub fn api_url_display(&self) -> (r: String)
        ensures
            r@ == api_url(self.api_transport@, self.api_host@, self.api_port),
    {
        let mut out = chars_of(normalize_transport(self.api_transport.as_str(), "http").as_str());
        proof { reveal_http(); }
        append_chars(&mut out, &vec![':', '/', '/']);
        let host = chars_of(self.api_host.as_str());
        append_chars(&mut out, &trimmed(&host));
        out.push(':');
        push_decimal(&mut out, self.api_port as u64);
        assert(out@ =~= api_url(self.api_transport@, self.api_host@, self.api_port));
        string_of(&out)
    }

    /// The URL of the health route: the base URL followed by `/1/summary`.
    pub fn summary_url_display(&self) -> (r: String)
        ensures
            r@ == api_url(self.api_transport@, self.api_host@, self.api_port) + summary_path_text(),
    {
        let mut out = chars_of(self.api_url_display().as_str());
        append_chars(&mut out, &summary_path_chars());
        string_of(&out)
    }

    /// Normalizes loaded settings: the transport falls back to `http`, the preferred
    /// route gets a leading `/` and falls back to `/1/summary`.
    pub fn normalize(&mut self)
        ensures
            final(self).api_transport@ == transport_or(old(self).api_transport@, http_text()),
            final(self).preferred_endpoint@ == endpoint_or_summary(old(self).preferred_endpoint@),
            final(self).api_host == old(self).api_host,
            final(self).api_port == old(self).api_port,
            final(self).api_access_token == old(self).api_access_token,
            final(self).poll_frequency_seconds == old(self).poll_frequency_seconds,
    {
        self.api_transport = normalize_transport(self.api_transport.as_str(), "http");
        proof { reveal_http(); }
        self.preferred_endpoint = normalize_endpoint(self.preferred_endpoint.as_str());
    }
}

proof fn reveal_http()
    ensures
        "http"@ == http_text(),
{
    reveal_strlit("http");
    assert("http"@ =~= http_text());
}

/// The trimmed text, or none when it is blank.
pub fn trimmed_or_none(value: &str) -> (r: Option<String>)
    ensures
        match r {
            Some(t) => trimmed_or_absent(value@) == Some(t@),
            None => trimmed_or_absent(value@) is None,
        },
{
    let t = trimmed(&chars_of(value));
    if t.len() == 0 {
        None
    } else {
        Some(string_of(&t))
    }
}

/// The transport named by `value`, `http` or `https` in lower case, else `fallback`.
pub fn normalize_transport(value: &str, fallback: &str) -> (r: String)
    ensures
        r@ == transport_or(value@, fallback@),
{
    let lowered = to_ascii_lowercase(&trimmed(&chars_of(value)));
    let http: Vec<char> = vec!['h', 't', 't', 'p'];
    let https: Vec<char> = vec!['h', 't', 't', 'p', 's'];
    if chars_eq(&lowered, &http) || chars_eq(&lowered, &https) {
        string_of(&lowered)
    } else {
        string_of(&chars_of(fallback))
    }
}

/// The route named by `value`, with a leading `/`; `/1/summary` when blank.
pub fn normalize_endpoint(value: &str) -> (r: String)
    ensures
        r@ == endpoint_or_summary(value@),
{
    let t = trimmed(&chars_of(value));
    if t.len() == 0 {
        string_of(&summary_path_chars())
    } else if t[0] == '/' {
        assert(t@.subrange(0, 1) =~= seq![t@[0]]);
        string_of(&t)
    } else {
        proof {
            if starts_with(t@, seq!['/']) {
                assert(t@.subrange(0, 1)[0] == '/');
            }
        }
        let mut out: Vec<char> = vec!['/'];
        append_chars(&mut out, &t);
        string_of(&out)
    }
}


proof fn lemma_lowercase_fixed(s: Seq<char>)
    requires
        forall|i: int| 0 <= i < s.len() ==> 'a' <= #[trigger] s[i] && s[i] <= 'z',
    ensures
        ascii_lowercase(s) == s,
{
    assert(ascii_lowercase(s) =~= s);
}

/// `http` and `https` name themselves.
pub proof fn lemma_transport_fixed(t: Seq<char>, fallback: Seq<char>)
    requires
        t == http_text() || t == https_text(),
    ensures
        transport_or(t, fallback) == t,
{
    lemma_trim_fixed(t);
    lemma_lowercase_fixed(t);
}

/// A normalized transport is `http` or `https`, and normalizing it again changes
/// nothing.
pub proof fn law_transport_normalization_is_stable(value: Seq<char>)
    ensures
        transport_or(value, http_text()) == http_text() || transport_or(value, http_text())
            == https_text(),
        transport_or(transport_or(value, http_text()), http_text()) == transport_or(
            value,
            http_text(),
        ),
{
    let n = transport_or(value, http_text());
    lemma_trim_fixed(n);
    lemma_lowercase_fixed(n);
}

/// A normalized route starts with `/`, and normalizing it again changes nothing.
pub proof fn law_endpoint_normalization_is_stable(value: Seq<char>)
    ensures
        starts_with(endpoint_or_summary(value), seq!['/']),
        endpoint_or_summary(endpoint_or_summary(value)) == endpoint_or_summary(value),
{
    let t = trim(value);
    let n = endpoint_or_summary(value);
    lemma_trim_shape(value);
    if t.len() == 0 {
        assert(n.len() > 0 && n[0] == '/' && !is_whitespace(n.last()));
    } else if starts_with(t, seq!['/']) {
        assert(t.subrange(0, 1)[0] == '/');
        assert(n.len() > 0 && n[0] == '/' && !is_whitespace(n.last()));
    } else {
        assert(n.last() == t.last());
        assert(n.len() > 0 && n[0] == '/' && !is_whitespace(n.last()));
    }
    assert(n.subrange(0, 1) =~= seq!['/']);
    lemma_trim_fixed(n);
}

} // verus!
