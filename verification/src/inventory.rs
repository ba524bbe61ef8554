use vstd::prelude::*;

use crate::text::{
    chars_of, string_of, chars_eq, chars_start_with, copy_range, find_char, index_of, join, join_chars, lemma_index_of,
    lemma_trim_idempotent, lemma_trim_keeps_chars, lines, starts_with, strip_cr, trim, trim_end,
    trim_end_bound, trimmed, views,
};

verus! {

/// The state of the line scanner that reads one bulleted section.
pub struct SectionScan {
    pub in_section: bool,
    pub done: bool,
    pub current: Option<Seq<char>>,
    pub description: Seq<Seq<char>>,
    pub entries: Seq<(Seq<char>, Seq<char>)>,
}

pub open spec fn scan_start() -> SectionScan {
    SectionScan {
        in_section: false,
        done: false,
        current: None,
        description: seq![],
        entries: seq![],
    }
}

/// The entries with the open one, if any, closed: its description lines joined by spaces.
pub open spec fn flush_entries(st: SectionScan) -> Seq<(Seq<char>, Seq<char>)> {
    match st.current {
        Some(t) => st.entries.push((t, join(st.description, seq![' ']))),
        None => st.entries,
    }
}

/// One line of the document. The section starts after the line that reads `title`
/// (trailing whitespace ignored) and ends before the first non-empty line that starts
/// with neither a space nor `-`. Inside it, a line whose trimmed text starts with
/// `- ` opens an entry titled by the rest; other non-empty lines add, trimmed, to the
/// description of the open entry.
pub open spec fn scan_line(st: SectionScan, line: Seq<char>, title: Seq<char>) -> SectionScan {
    let t = trim_end(line);
    if st.done {
        st
    } else if t == title {
        SectionScan { in_section: true, ..st }
    } else if !st.in_section {
        st
    } else if t.len() > 0 && !starts_with(line, seq![' ']) && !starts_with(line, seq!['-']) {
        SectionScan { done: true, ..st }
    } else if starts_with(trim(t), seq!['-', ' ']) {
        SectionScan {
            current: Some(trim(trim(t).subrange(2, trim(t).len() as int))),
            description: seq![],
            entries: flush_entries(st),
            ..st
        }
    } else if trim(t).len() > 0 {
        SectionScan { description: st.description.push(trim(t)), ..st }
    } else {
        st
    }
}

/// The scanner run over the lines in order.
pub open spec fn scan_lines(st: SectionScan, ls: Seq<Seq<char>>, title: Seq<char>) -> SectionScan
    decreases ls.len(),
{
    if ls.len() == 0 {
        st
    } else {
        scan_lines(scan_line(st, ls[0], title), ls.drop_first(), title)
    }
}

/// The (title, description) pairs of the bulleted section `title` of `document`.
pub open spec fn bulleted_section(document: Seq<char>, title: Seq<char>) -> Seq<(Seq<char>, Seq<char>)> {
    flush_entries(scan_lines(scan_start(), lines(document), title))
}

proof fn lemma_done_absorbs(st: SectionScan, ls: Seq<Seq<char>>, title: Seq<char>)
    requires
        st.done,
    ensures
        scan_lines(st, ls, title) == st,
    decreases ls.len(),
{
    if ls.len() > 0 {
        lemma_done_absorbs(scan_line(st, ls[0], title), ls.drop_first(), title);
    }
}

proof fn lemma_scan_cons(st: SectionScan, l: Seq<char>, rest: Seq<Seq<char>>, title: Seq<char>)
    ensures
        scan_lines(st, seq![l] + rest, title) == scan_lines(scan_line(st, l, title), rest, title),
{
    assert((seq![l] + rest).drop_first() =~= rest);
}

proof fn lemma_lines_step(cs: Seq<char>, p: int, nl: int)
    requires
        0 <= p < cs.len(),
        p <= nl <= cs.len(),
        nl - p == index_of(cs.subrange(p, cs.len() as int), '\n'),
    ensures
        nl < cs.len() ==> lines(cs.subrange(p, cs.len() as int)) == seq![
            strip_cr(cs.subrange(p, nl)),
        ] + lines(cs.subrange(nl + 1, cs.len() as int)),
        nl == cs.len() ==> lines(cs.subrange(p, cs.len() as int)) == seq![
            cs.subrange(p, cs.len() as int),
        ],
{
    let s = cs.subrange(p, cs.len() as int);
    lemma_index_of(s, '\n');
    assert(s.subrange(0, nl - p) =~= cs.subrange(p, nl));
    if nl < cs.len() {
        assert(s.subrange(nl - p + 1, s.len() as int) =~= cs.subrange(nl + 1, cs.len() as int));
    }
}

pub open spec fn opt_view(o: Option<Vec<char>>) -> Option<Seq<char>> {
    match o {
        Some(v) => Some(v@),
        None => None,
    }
}

pub open spec fn pair_views(e: Seq<(Vec<char>, Vec<char>)>) -> Seq<(Seq<char>, Seq<char>)> {
    Seq::new(e.len(), |i: int| (e[i].0@, e[i].1@))
}

/// The entries of the bulleted section `title` of the text `cs`.
pub fn scan_section(cs: &[char], title: &[char]) -> (r: Vec<(Vec<char>, Vec<char>)>)
    ensures
        pair_views(r@) == bulleted_section(cs@, title@),
{
    let mut in_section = false;
    let mut done = false;
    let mut current: Option<Vec<char>> = None;
    let mut description: Vec<Vec<char>> = Vec::new();
    let mut entries: Vec<(Vec<char>, Vec<char>)> = Vec::new();
    let space: Vec<char> = vec![' '];
    let bullet: Vec<char> = vec!['-', ' '];
    let mut p: usize = 0;
    assert(cs@.subrange(0, cs@.len() as int) =~= cs@);
    assert(views(description@) =~= seq![]);
    assert(pair_views(entries@) =~= seq![]);
    while p < cs.len() && !done
        invariant
            p <= cs@.len(),
            space@ == seq![' '],
            bullet@ == seq!['-', ' '],
            scan_lines(
                SectionScan {
                    in_section,
                    done,
                    current: opt_view(current),
                    description: views(description@),
                    entries: pair_views(entries@),
                },
                lines(cs@.subrange(p as int, cs@.len() as int)),
                title@,
            ) == scan_lines(scan_start(), lines(cs@), title@),
        decreases cs.len() - p,
    {
        let ghost st = SectionScan {
            in_section,
            done,
            current: opt_view(current),
            description: views(description@),
            entries: pair_views(entries@),
        };
        let nl = find_char(cs, p, '\n');
        let line_end = if nl < cs.len() && nl > p && cs[nl - 1] == '\r' {
            nl - 1
        } else {
            nl
        };
        let line = copy_range(cs, p, line_end);
        proof {
            lemma_lines_step(cs@, p as int, nl as int);
            if nl < cs.len() {
                assert(line@ == strip_cr(cs@.subrange(p as int, nl as int)));
            } else {
                assert(line@ == cs@.subrange(p as int, cs@.len() as int));
            }
        }
        let t_end = trim_end_bound(&line, line.len());
        assert(line@.subrange(0, line@.len() as int) =~= line@);
        let t = copy_range(&line, 0, t_end);
        if chars_eq(&t, title) {
            in_section = true;
        } else if !in_section {
        } else if t.len() > 0 && !(line.len() > 0 && line[0] == ' ') && !(line.len() > 0
            && line[0] == '-') {
            assert(line@.len() > 0 ==> (starts_with(line@, seq![' ']) <==> line@[0] == ' ')) by {
                if line@.len() > 0 {
                    assert(line@.subrange(0, 1) =~= seq![line@[0]]);
                }
            }
            assert(line@.len() > 0 ==> (starts_with(line@, seq!['-']) <==> line@[0] == '-')) by {
                if line@.len() > 0 {
                    assert(line@.subrange(0, 1) =~= seq![line@[0]]);
                }
            }
            done = true;
        } else {
            assert(t@.len() > 0 ==> line@.len() > 0);
            assert(line@.len() > 0 ==> (starts_with(line@, seq![' ']) <==> line@[0] == ' ')) by {
                if line@.len() > 0 {
                    assert(line@.subrange(0, 1) =~= seq![line@[0]]);
                }
            }
            assert(line@.len() > 0 ==> (starts_with(line@, seq!['-']) <==> line@[0] == '-')) by {
                if line@.len() > 0 {
                    assert(line@.subrange(0, 1) =~= seq![line@[0]]);
                }
            }
            let tt = trimmed(&t);
            if chars_start_with(&tt, &bullet) {
                let value = trimmed_range(&tt, 2);
                match current {
                    Some(c) => {
                        let joined = join_chars(&description, &space);
                        entries.push((c, joined));
                    },
                    None => {},
                }
                proof {
                    assert(pair_views(entries@) =~= flush_entries(st));
                }
                current = Some(value);
                description = Vec::new();
                proof {
                    assert(views(description@) =~= seq![]);
                }
            } else if tt.len() > 0 {
                description.push(tt);
                proof {
                    assert(views(description@) =~= st.description.push(trim(t@)));
                }
            }
        }
        p = if nl < cs.len() {
            nl + 1
        } else {
            cs.len()
        };
        proof {
            let new_st = SectionScan {
                in_section,
                done,
                current: opt_view(current),
                description: views(description@),
                entries: pair_views(entries@),
            };
            assert(new_st == scan_line(st, line@, title@));
            if nl == cs.len() {
                assert(cs@.subrange(p as int, cs@.len() as int) =~= Seq::<char>::empty());
                assert(lines(cs@.subrange(p as int, cs@.len() as int)) =~= Seq::<Seq<char>>::empty());
            }
            lemma_scan_cons(st, line@, lines(cs@.subrange(p as int, cs@.len() as int)), title@);
            if done {
                lemma_done_absorbs(
                    SectionScan {
                        in_section,
                        done,
                        current: opt_view(current),
                        description: views(description@),
                        entries: pair_views(entries@),
                    },
                    lines(cs@.subrange(p as int, cs@.len() as int)),
                    title@,
                );
            }
        }
    }
    proof {
        if p == cs.len() {
            assert(cs@.subrange(p as int, cs@.len() as int) =~= Seq::<char>::empty());
        }
        let stf = SectionScan {
            in_section,
            done,
            current: opt_view(current),
            description: views(description@),
            entries: pair_views(entries@),
        };
        if done {
            lemma_done_absorbs(stf, lines(cs@.subrange(p as int, cs@.len() as int)), title@);
        }
    }
    let ghost before = pair_views(entries@);
    match current {
        Some(c) => {
            let joined = join_chars(&description, &space);
            entries.push((c, joined));
        },
        None => {},
    }
    proof {
        assert(pair_views(entries@) =~= flush_entries(
            SectionScan {
                in_section,
                done,
                current: opt_view(current),
                description: views(description@),
                entries: before,
            },
        ));
    }
    entries
}

/// The trimmed characters of `cs` from `from` on.
fn trimmed_range(cs: &[char], from: usize) -> (r: Vec<char>)
    requires
        from <= cs@.len(),
    ensures
        r@ == trim(cs@.subrange(from as int, cs@.len() as int)),
{
    let rest = copy_range(cs, from, cs.len());
    trimmed(&rest)
}


/// The HTTP API reference that the monitor reads its routes and config keys from.
pub const API_DOCUMENTATION: &'static str = "xmrigcc-proxy HTTP API reference

All routes are served below the configured HTTP API base URL.
When an access token is configured, every request must carry the
header \"Authorization: Bearer <token>\".

Implemented HTTP API routes
- GET /1/summary
    Proxy summary: id, worker id, version, kind, mode, uptime, features,
    hashrate, miners, upstreams, results, donation and resource usage.
- GET /1/workers
    Per-worker statistics as rows of name, ip, connections, accepted,
    rejected, invalid, hashes, last hash and hashrate windows.
- GET /1/miners
    Connected miners as rows whose columns are named by the \"format\" array.
- GET /1/config
    The running proxy configuration. Requires an unrestricted API.
- POST /1/config
    Replaces the running proxy configuration with the JSON request body.
- POST /json_rpc
    JSON-RPC 2.0 endpoint for control commands.

Current JSON config keys
- http.enabled
    Enables the embedded HTTP API server.
- http.host
    Address the HTTP API listens on.
- http.port
    Port the HTTP API listens on.
- http.access-token
    Bearer token required for every HTTP API request.
- http.restricted
    When true, only read-only routes are served.
- api.id
    Proxy instance identifier reported as \"id\" in the summary.
- api.worker-id
    Worker identifier reported as \"worker_id\" in the summary.

Notes
Routes that change state are listed for reference and are never
polled by the monitor.
";

/// The title of the section that lists the routes.
pub open spec fn routes_title() -> Seq<char> {
    "Implemented HTTP API routes"@
}

/// The title of the section that lists the config keys.
pub open spec fn options_title() -> Seq<char> {
    "Current JSON config keys"@
}

/// A documented config key.
#[derive(Debug, Clone, PartialEq, Eq)]
pub struct ApiOptionSpec {
    pub key: String,
    pub description: String,
}

/// A documented route.
#[derive(Debug, Clone, PartialEq, Eq)]
pub struct ApiEndpointSpec {
    pub method: String,
    pub path: String,
    pub description: String,
    pub safe_to_poll: bool,
}

/// A config key as character sequences.
pub struct OptionModel {
    pub key: Seq<char>,
    pub description: Seq<char>,
}

/// A route as character sequences.
pub struct EndpointModel {
    pub method: Seq<char>,
    pub path: Seq<char>,
    pub description: Seq<char>,
    pub safe_to_poll: bool,
}

impl View for ApiOptionSpec {
    type V = OptionModel;

    open spec fn view(&self) -> OptionModel {
        OptionModel { key: self.key@, description: self.description@ }
    }
}

impl View for ApiEndpointSpec {
    type V = EndpointModel;

    open spec fn view(&self) -> EndpointModel {
        EndpointModel {
            method: self.method@,
            path: self.path@,
            description: self.description@,
            safe_to_poll: self.safe_to_poll,
        }
    }
}

pub open spec fn option_views(v: Seq<ApiOptionSpec>) -> Seq<OptionModel> {
    Seq::new(v.len(), |i: int| v[i]@)
}

pub open spec fn endpoint_views(v: Seq<ApiEndpointSpec>) -> Seq<EndpointModel> {
    Seq::new(v.len(), |i: int| v[i]@)
}

/// A config key for each entry of a section.
pub open spec fn options_from_entries(es: Seq<(Seq<char>, Seq<char>)>) -> Seq<OptionModel> {
    Seq::new(es.len(), |i: int| OptionModel { key: es[i].0, description: es[i].1 })
}

/// The route an entry documents: the entry title split at its first space into
/// method and path, each trimmed; a title without a space documents no route.
/// Only `GET` routes are safe to poll.
pub open spec fn endpoint_from_entry(entry: (Seq<char>, Seq<char>)) -> Option<EndpointModel> {
    let k = index_of(entry.0, ' ');
    if k < entry.0.len() {
        let method = trim(entry.0.subrange(0, k));
        Some(
            EndpointModel {
                method,
                path: trim(entry.0.subrange(k + 1, entry.0.len() as int)),
                description: entry.1,
                safe_to_poll: method == "GET"@,
            },
        )
    } else {
        None
    }
}

/// The routes of the entries, in order, skipping entries that document none.
pub open spec fn endpoints_from_entries(es: Seq<(Seq<char>, Seq<char>)>) -> Seq<EndpointModel>
    decreases es.len(),
{
    if es.len() == 0 {
        seq![]
    } else {
        let rest = endpoints_from_entries(es.drop_last());
        match endpoint_from_entry(es.last()) {
            Some(e) => rest.push(e),
            None => rest,
        }
    }
}

/// The routes documented in `document`.
pub open spec fn document_endpoints(document: Seq<char>) -> Seq<EndpointModel> {
    endpoints_from_entries(bulleted_section(document, routes_title()))
}

/// The config keys documented in `document`.
pub open spec fn document_options(document: Seq<char>) -> Seq<OptionModel> {
    options_from_entries(bulleted_section(document, options_title()))
}

/// A route that changes state: not safe to poll, with a path that starts with `/`.
pub open spec fn is_write_route(e: EndpointModel) -> bool {
    !e.safe_to_poll && starts_with(e.path, seq!['/'])
}

/// The write routes among `es`, in order.
pub open spec fn write_routes(es: Seq<EndpointModel>) -> Seq<EndpointModel>
    decreases es.len(),
{
    if es.len() == 0 {
        seq![]
    } else {
        let rest = write_routes(es.drop_last());
        if is_write_route(es.last()) {
            rest.push(es.last())
        } else {
            rest
        }
    }
}

/// The health route: `GET /1/summary`.
pub open spec fn is_summary_route(e: EndpointModel) -> bool {
    e.method == "GET"@ && e.path == "/1/summary"@
}

/// The position of the first health route in `es`, or `es.len()`.
pub open spec fn first_summary_index(es: Seq<EndpointModel>) -> int
    decreases es.len(),
{
    if es.len() == 0 {
        0
    } else if is_summary_route(es[0]) {
        0
    } else {
        1 + first_summary_index(es.drop_first())
    }
}

/// The position of the first route safe to poll in `es`, or `es.len()`.
pub open spec fn first_safe_index(es: Seq<EndpointModel>) -> int
    decreases es.len(),
{
    if es.len() == 0 {
        0
    } else if es[0].safe_to_poll {
        0
    } else {
        1 + first_safe_index(es.drop_first())
    }
}

/// The route polled by default: the health route if it is documented, else the
/// first route safe to poll, else none.
pub open spec fn default_endpoint_path(es: Seq<EndpointModel>) -> Option<Seq<char>> {
    let i = first_summary_index(es);
    let j = first_safe_index(es);
    if i < es.len() {
        Some(es[i].path)
    } else if j < es.len() {
        Some(es[j].path)
    } else {
        None
    }
}

pub proof fn lemma_first_summary_index(es: Seq<EndpointModel>)
    ensures
        0 <= first_summary_index(es) <= es.len(),
        first_summary_index(es) < es.len() ==> is_summary_route(es[first_summary_index(es)]),
        forall|j: int| 0 <= j < first_summary_index(es) ==> !is_summary_route(#[trigger] es[j]),
    decreases es.len(),
{
    if es.len() > 0 && !is_summary_route(es[0]) {
        lemma_first_summary_index(es.drop_first());
        assert forall|j: int| 0 <= j < first_summary_index(es) implies !is_summary_route(
            #[trigger] es[j],
        ) by {
            if j > 0 {
                assert(es[j] == es.drop_first()[j - 1]);
            }
        }
    }
}

pub proof fn lemma_first_safe_index(es: Seq<EndpointModel>)
    ensures
        0 <= first_safe_index(es) <= es.len(),
        first_safe_index(es) < es.len() ==> es[first_safe_index(es)].safe_to_poll,
        forall|j: int| 0 <= j < first_safe_index(es) ==> !(#[trigger] es[j]).safe_to_poll,
    decreases es.len(),
{
    if es.len() > 0 && !es[0].safe_to_poll {
        lemma_first_safe_index(es.drop_first());
        assert forall|j: int| 0 <= j < first_safe_index(es) implies !(#[trigger] es[j]).safe_to_poll by {
            if j > 0 {
                assert(es[j] == es.drop_first()[j - 1]);
            }
        }
    }
}

/// Every route in `es` is safe to poll exactly when its method is `GET`.
pub open spec fn routes_well_formed(es: Seq<EndpointModel>) -> bool {
    forall|i: int| 0 <= i < es.len() ==> (#[trigger] es[i]).safe_to_poll == (es[i].method == "GET"@)
}

proof fn lemma_entries_well_formed(es: Seq<(Seq<char>, Seq<char>)>)
    ensures
        routes_well_formed(endpoints_from_entries(es)),
    decreases es.len(),
{
    if es.len() > 0 {
        lemma_entries_well_formed(es.drop_last());
    }
}

/// A route read from an entry: its method holds no space, and its method and path
/// carry no surrounding whitespace.
pub open spec fn route_well_shaped(e: EndpointModel) -> bool {
    &&& !e.method.contains(' ')
    &&& trim(e.method) == e.method
    &&& trim(e.path) == e.path
}

proof fn lemma_entries_well_shaped(es: Seq<(Seq<char>, Seq<char>)>)
    ensures
        forall|i: int|
            0 <= i < endpoints_from_entries(es).len() ==> route_well_shaped(
                #[trigger] endpoints_from_entries(es)[i],
            ),
    decreases es.len(),
{
    if es.len() > 0 {
        lemma_entries_well_shaped(es.drop_last());
        let title = es.last().0;
        let k = index_of(title, ' ');
        if k < title.len() {
            lemma_index_of(title, ' ');
            let before = title.subrange(0, k);
            let m = trim(before);
            lemma_trim_keeps_chars(before);
            lemma_trim_idempotent(before);
            lemma_trim_idempotent(title.subrange(k + 1, title.len() as int));
            if m.contains(' ') {
                let j = choose|j: int| 0 <= j < m.len() && m[j] == ' ';
                assert(before.contains(m[j]));
                let q = choose|q: int| 0 <= q < before.len() && before[q] == m[j];
                assert(title[q] == ' ');
            }
            let e = endpoint_from_entry(es.last())->0;
            assert(route_well_shaped(e));
        }
        let rest = endpoints_from_entries(es.drop_last());
        let r = endpoints_from_entries(es);
        assert forall|i: int| 0 <= i < r.len() implies route_well_shaped(#[trigger] r[i]) by {
            if i < rest.len() {
                assert(r[i] == rest[i]);
            }
        }
    }
}

/// The documented routes are read cleanly: every method holds no space, and methods
/// and paths carry no surrounding whitespace.
pub proof fn law_documented_routes_are_well_shaped(document: Seq<char>)
    ensures
        forall|i: int|
            0 <= i < document_endpoints(document).len() ==> route_well_shaped(
                #[trigger] document_endpoints(document)[i],
            ),
{
    lemma_entries_well_shaped(bulleted_section(document, routes_title()));
}

/// Of the documented routes, exactly the `GET` routes are polled: a route is safe to
/// poll if and only if its method is `GET`.
pub proof fn law_documented_routes_poll_only_get(document: Seq<char>)
    ensures
        routes_well_formed(document_endpoints(document)),
{
    lemma_entries_well_formed(bulleted_section(document, routes_title()));
}

/// Documented write routes are never polled: each of them is a route of `es` that is
/// not safe to poll, and they keep the order they have in `es`.
pub proof fn law_write_routes_are_never_polled(es: Seq<EndpointModel>)
    ensures
        forall|i: int|
            0 <= i < write_routes(es).len() ==> !(#[trigger] write_routes(es)[i]).safe_to_poll
                && es.contains(write_routes(es)[i]),
        write_routes(es).len() <= es.len(),
    decreases es.len(),
{
    if es.len() > 0 {
        let rest = es.drop_last();
        law_write_routes_are_never_polled(rest);
        assert forall|i: int| 0 <= i < write_routes(es).len() implies !(#[trigger] write_routes(
            es,
        )[i]).safe_to_poll && es.contains(write_routes(es)[i]) by {
            if i < write_routes(rest).len() {
                assert(write_routes(es)[i] == write_routes(rest)[i]);
                let k = choose|k: int| 0 <= k < rest.len() && rest[k] == write_routes(rest)[i];
                assert(es[k] == rest[k]);
            } else {
                assert(write_routes(es)[i] == es.last());
                assert(es[es.len() - 1] == es.last());
            }
        }
    }
}

/// The route polled by default is one of the routes of `es` that is safe to poll, and
/// there is one whenever some route of `es` is safe to poll.
pub proof fn law_default_route_is_safe(es: Seq<EndpointModel>)
    requires
        routes_well_formed(es),
    ensures
        default_endpoint_path(es) matches Some(p) ==> exists|i: int|
            0 <= i < es.len() && (#[trigger] es[i]).safe_to_poll && es[i].path == p,
        (exists|i: int| 0 <= i < es.len() && (#[trigger] es[i]).safe_to_poll)
            ==> default_endpoint_path(es) is Some,
{
    lemma_first_summary_index(es);
    lemma_first_safe_index(es);
    let i = first_summary_index(es);
    let j = first_safe_index(es);
    if i < es.len() {
        assert(es[i].safe_to_poll);
    } else if j < es.len() {
        assert(es[j].safe_to_poll);
    }
}

/// The HTTP API reference text.
pub fn api_documentation() -> (r: &'static str)
    ensures
        r@ == API_DOCUMENTATION@,
{
    API_DOCUMENTATION
}

/// The (title, description) pairs of the bulleted section `title` of `document`.
pub fn parse_section(document: &str, title: &str) -> (r: Vec<(String, String)>)
    ensures
        r@.len() == bulleted_section(document@, title@).len(),
        forall|i: int|
            0 <= i < r@.len() ==> (#[trigger] r@[i]).0@ == bulleted_section(document@, title@)[i].0
                && r@[i].1@ == bulleted_section(document@, title@)[i].1,
{
    let cs = chars_of(document);
    let tcs = chars_of(title);
    let entries = scan_section(&cs, &tcs);
    let mut out: Vec<(String, String)> = Vec::new();
    let mut i: usize = 0;
    while i < entries.len()
        invariant
            i <= entries@.len(),
            out@.len() == i,
            forall|k: int|
                0 <= k < i ==> (#[trigger] out@[k]).0@ == entries@[k].0@ && out@[k].1@
                    == entries@[k].1@,
        decreases entries.len() - i,
    {
        let a = string_of(&entries[i].0);
        let b = string_of(&entries[i].1);
        out.push((a, b));
        i += 1;
    }
    proof {
        assert forall|k: int| 0 <= k < out@.len() implies (#[trigger] out@[k]).0@
            == bulleted_section(document@, title@)[k].0 by {
            assert(pair_views(entries@)[k] == (entries@[k].0@, entries@[k].1@));
        }
        assert forall|k: int| 0 <= k < out@.len() implies (#[trigger] out@[k]).1@
            == bulleted_section(document@, title@)[k].1 by {
            assert(pair_views(entries@)[k] == (entries@[k].0@, entries@[k].1@));
        }
    }
    out
}

/// The (title, description) pairs of the bulleted section `title` of the HTTP API
/// reference.
pub fn parse_bulleted_section(title: &str) -> (r: Vec<(String, String)>)
    ensures
        r@.len() == bulleted_section(API_DOCUMENTATION@, title@).len(),
        forall|i: int|
            0 <= i < r@.len() ==> (#[trigger] r@[i]).0@ == bulleted_section(
                API_DOCUMENTATION@,
                title@,
            )[i].0 && r@[i].1@ == bulleted_section(API_DOCUMENTATION@, title@)[i].1,
{
    parse_section(api_documentation(), title)
}

proof fn lemma_starts_with_char(s: Seq<char>, c: char)
    ensures
        starts_with(s, seq![c]) <==> (s.len() > 0 && s[0] == c),
{
    if s.len() > 0 {
        assert(s.subrange(0, 1) =~= seq![s[0]]);
        if starts_with(s, seq![c]) {
            assert(s.subrange(0, 1)[0] == c);
        }
    }
}

/// A copy of a route.
pub fn copy_endpoint(e: &ApiEndpointSpec) -> (r: ApiEndpointSpec)
    ensures
        r@ == e@,
{
    ApiEndpointSpec {
        method: e.method.clone(),
        path: e.path.clone(),
        description: e.description.clone(),
        safe_to_poll: e.safe_to_poll,
    }
}

/// The route an entry documents, if any.
fn endpoint_from(entry: &(Vec<char>, Vec<char>), get: &Vec<char>) -> (r: Option<ApiEndpointSpec>)
    requires
        get@ == "GET"@,
    ensures
        match r {
            Some(e) => endpoint_from_entry((entry.0@, entry.1@)) == Some(e@),
            None => endpoint_from_entry((entry.0@, entry.1@)) is None,
        },
{
    let title = &entry.0;
    let k = find_char(title, 0, ' ');
    assert(title@.subrange(0, title@.len() as int) =~= title@);
    if k < title.len() {
        let before = copy_range(title, 0, k);
        let after = copy_range(title, k + 1, title.len());
        let method = trimmed(&before);
        let path = trimmed(&after);
        let safe = chars_eq(&method, get);
        Some(
            ApiEndpointSpec {
                method: string_of(&method),
                path: string_of(&path),
                description: string_of(&entry.1),
                safe_to_poll: safe,
            },
        )
    } else {
        None
    }
}

/// The routes documented in `document`.
pub fn endpoints_from_document(document: &str) -> (r: Vec<ApiEndpointSpec>)
    ensures
        endpoint_views(r@) == document_endpoints(document@),
{
    let cs = chars_of(document);
    let tcs = chars_of("Implemented HTTP API routes");
    let get = chars_of("GET");
    let entries = scan_section(&cs, &tcs);
    let ghost es = pair_views(entries@);
    let mut out: Vec<ApiEndpointSpec> = Vec::new();
    let mut i: usize = 0;
    while i < entries.len()
        invariant
            i <= entries@.len(),
            es == pair_views(entries@),
            get@ == "GET"@,
            endpoint_views(out@) == endpoints_from_entries(es.subrange(0, i as int)),
        decreases entries.len() - i,
    {
        let ghost prev = out@;
        let e = endpoint_from(&entries[i], &get);
        assert(es.subrange(0, i + 1).drop_last() =~= es.subrange(0, i as int));
        assert(es.subrange(0, i + 1).last() == (entries@[i as int].0@, entries@[i as int].1@));
        match e {
            Some(e) => {
                out.push(e);
                assert(endpoint_views(out@) =~= endpoint_views(prev).push(e@));
            },
            None => {},
        }
        i += 1;
    }
    assert(es.subrange(0, entries@.len() as int) =~= es);
    out
}

/// The config keys documented in `document`.
pub fn options_from_document(document: &str) -> (r: Vec<ApiOptionSpec>)
    ensures
        option_views(r@) == document_options(document@),
{
    let cs = chars_of(document);
    let tcs = chars_of("Current JSON config keys");
    let entries = scan_section(&cs, &tcs);
    let ghost es = pair_views(entries@);
    let mut out: Vec<ApiOptionSpec> = Vec::new();
    let mut i: usize = 0;
    while i < entries.len()
        invariant
            i <= entries@.len(),
            es == pair_views(entries@),
            option_views(out@) == options_from_entries(es.subrange(0, i as int)),
        decreases entries.len() - i,
    {
        let ghost prev = out@;
        let key = string_of(&entries[i].0);
        let description = string_of(&entries[i].1);
        out.push(ApiOptionSpec { key, description });
        assert(option_views(out@) =~= option_views(prev).push(
            OptionModel { key: es[i as int].0, description: es[i as int].1 },
        ));
        i += 1;
        assert(option_views(out@) =~= options_from_entries(es.subrange(0, i as int)));
    }
    assert(es.subrange(0, entries@.len() as int) =~= es);
    out
}

/// The config keys of the HTTP API reference.
pub fn load_api_options() -> (r: Vec<ApiOptionSpec>)
    ensures
        option_views(r@) == document_options(API_DOCUMENTATION@),
{
    options_from_document(api_documentation())
}

/// The routes of the HTTP API reference.
pub fn load_api_endpoints() -> (r: Vec<ApiEndpointSpec>)
    ensures
        endpoint_views(r@) == document_endpoints(API_DOCUMENTATION@),
{
    endpoints_from_document(api_documentation())
}

/// The documented routes that change state.
pub fn documented_write_routes() -> (r: Vec<ApiEndpointSpec>)
    ensures
        endpoint_views(r@) == write_routes(document_endpoints(API_DOCUMENTATION@)),
{
    let all = load_api_endpoints();
    write_routes_of(all)
}

/// The write routes among `endpoints`, in order.
pub fn write_routes_of(endpoints: Vec<ApiEndpointSpec>) -> (r: Vec<ApiEndpointSpec>)
    ensures
        endpoint_views(r@) == write_routes(endpoint_views(endpoints@)),
{
    let ghost es = endpoint_views(endpoints@);
    let mut out: Vec<ApiEndpointSpec> = Vec::new();
    let mut i: usize = 0;
    while i < endpoints.len()
        invariant
            i <= endpoints@.len(),
            es == endpoint_views(endpoints@),
            endpoint_views(out@) == write_routes(es.subrange(0, i as int)),
        decreases endpoints.len() - i,
    {
        let ghost prev = out@;
        assert(es.subrange(0, i + 1).drop_last() =~= es.subrange(0, i as int));
        assert(es.subrange(0, i + 1).last() == endpoints@[i as int]@);
        let e = &endpoints[i];
        let path = chars_of(e.path.as_str());
        let write = !e.safe_to_poll && path.len() > 0 && path[0] == '/';
        proof {
            lemma_starts_with_char(path@, '/');
        }
        assert(write == is_write_route(es[i as int]));
        if write {
            out.push(copy_endpoint(e));
            assert(endpoint_views(out@) =~= endpoint_views(prev).push(endpoints@[i as int]@));
        }
        i += 1;
    }
    assert(es.subrange(0, endpoints@.len() as int) =~= es);
    out
}

/// The route to poll by default: `/1/summary` when `GET /1/summary` is documented,
/// else the path of the first route safe to poll, else none.
pub fn default_endpoint(endpoints: &[ApiEndpointSpec]) -> (r: Option<String>)
    ensures
        match r {
            Some(p) => default_endpoint_path(endpoint_views(endpoints@)) == Some(p@),
            None => default_endpoint_path(endpoint_views(endpoints@)) is None,
        },
{
    let ghost es = endpoint_views(endpoints@);
    let get = chars_of("GET");
    let summary = chars_of("/1/summary");
    proof {
        lemma_first_summary_index(es);
        lemma_first_safe_index(es);
    }
    let mut i: usize = 0;
    while i < endpoints.len()
        invariant
            i <= endpoints@.len(),
            es == endpoint_views(endpoints@),
            get@ == "GET"@,
            summary@ == "/1/summary"@,
            0 <= first_summary_index(es) <= es.len(),
            first_summary_index(es) < es.len() ==> is_summary_route(es[first_summary_index(es)]),
            i <= first_summary_index(es),
        decreases endpoints.len() - i,
    {
        let m = chars_of(endpoints[i].method.as_str());
        let p = chars_of(endpoints[i].path.as_str());
        if chars_eq(&m, &get) && chars_eq(&p, &summary) {
            assert(is_summary_route(es[i as int]));
            assert(first_summary_index(es) == i) by {
                if first_summary_index(es) > i {
                    lemma_first_summary_index(es);
                    assert(!is_summary_route(es[i as int]));
                }
            }
            return Some(endpoints[i].path.clone());
        }
        assert(!is_summary_route(es[i as int]));
        i += 1;
    }
    let mut j: usize = 0;
    while j < endpoints.len()
        invariant
            j <= endpoints@.len(),
            es == endpoint_views(endpoints@),
            first_summary_index(es) == es.len(),
            0 <= first_safe_index(es) <= es.len(),
            first_safe_index(es) < es.len() ==> es[first_safe_index(es)].safe_to_poll,
            j <= first_safe_index(es),
        decreases endpoints.len() - j,
    {
        if endpoints[j].safe_to_poll {
            assert(first_safe_index(es) == j) by {
                if first_safe_index(es) > j {
                    lemma_first_safe_index(es);
                    assert(!es[j as int].safe_to_poll);
                }
            }
            return Some(endpoints[j].path.clone());
        }
        j += 1;
    }
    None
}

} // verus!
