//! Parsing of the tunnel client's open-text metrics page: labeled counters,
//! per-status-code response counts, and connected edge locations.

use std::collections::HashMap;
use vstd::prelude::*;

use crate::text::{
    all_digits, all_digits_range, chars_of, dec_val, find_at, first_where, is_ws, is_ws_char,
    lemma_drop_trailing_ws, lemma_first_where_is, lemma_first_where_none, lemma_last_token_range,
    last_token, lex_leq, parse_u64_range, spec_find, spec_lines, split_lines, str_eq,
    str_lex_leq, str_starts_with, drop_trailing_ws, seq_starts_with,
};

verus! {

broadcast use vstd::std_specs::hash::group_hash_axioms;

/// Counters scraped from one tunnel's metrics endpoint.
#[derive(Debug)]
pub struct TunnelMetrics {
    /// Total number of requests handled.
    pub total_requests: u64,
    /// Number of request errors.
    pub request_errors: u64,
    /// Number of active connections to the edge.
    pub ha_connections: u64,
    /// Number of currently active requests.
    pub concurrent_requests: u64,
    /// Response counts by status code.
    pub response_codes: HashMap<u16, u64>,
    /// Connected edge locations, sorted, each listed once.
    pub edge_locations: Vec<String>,
    /// Whether the metrics were fetched and parsed at all.
    pub available: bool,
}

impl Default for TunnelMetrics {
    fn default() -> (r: Self)
        ensures
            r.total_requests == 0,
            r.request_errors == 0,
            r.ha_connections == 0,
            r.concurrent_requests == 0,
            r.response_codes@ == Map::<u16, u64>::empty(),
            r.edge_locations@ == Seq::<String>::empty(),
            !r.available,
    {
        TunnelMetrics {
            total_requests: 0,
            request_errors: 0,
            ha_connections: 0,
            concurrent_requests: 0,
            response_codes: HashMap::new(),
            edge_locations: Vec::new(),
            available: false,
        }
    }
}

/// A full stop, as a dot in a decimal number.
pub open spec fn is_dot() -> spec_fn(char) -> bool {
    |c: char| c == '.'
}

/// The number a counter token denotes: the digits before an optional dot,
/// which only further digits may follow. The value must fit in a `u64`.
pub open spec fn token_num(t: Seq<char>) -> Option<u64> {
    match first_where(t, is_dot()) {
        Some(d) => if 1 <= d && all_digits(t.take(d)) && all_digits(t.skip(d + 1)) && dec_val(
            t.take(d),
        ) <= u64::MAX {
            Some(dec_val(t.take(d)) as u64)
        } else {
            None
        },
        None => if t.len() >= 1 && all_digits(t) && dec_val(t) <= u64::MAX {
            Some(dec_val(t) as u64)
        } else {
            None
        },
    }
}

/// The counter value of a metric line: its last whitespace-separated token,
/// read as a decimal number.
pub open spec fn spec_extract_value(line: Seq<char>) -> Option<u64> {
    token_num(last_token(drop_trailing_ws(line)))
}

/// Reads the counter value off a metric line: the last whitespace-separated
/// token, a decimal number with an optional fractional part.
pub fn extract_value(line: &str) -> (r: Option<u64>)
    ensures
        r == spec_extract_value(line@),
{
    let v = chars_of(line);
    let mut b: usize = v.len();
    while b > 0 && is_ws_char(v[b - 1])
        invariant
            b <= v@.len(),
            v@ == line@,
            forall|k: int| b <= k < v@.len() ==> is_ws(v@[k]),
        decreases b,
    {
        b -= 1;
    }
    proof {
        lemma_drop_trailing_ws(v@, b as int);
    }
    let mut a: usize = b;
    while a > 0 && !is_ws_char(v[a - 1])
        invariant
            a <= b <= v@.len(),
            v@ == line@,
            forall|k: int| a <= k < b ==> !is_ws(v@[k]),
        decreases a,
    {
        a -= 1;
    }
    let ghost t = v@.subrange(a as int, b as int);
    proof {
        lemma_last_token_range(v@.subrange(0, b as int), a as int);
        assert(v@.subrange(0, b as int).subrange(a as int, b as int) =~= t);
        assert(last_token(drop_trailing_ws(line@)) == t);
    }
    // Find the dot within the token, if any.
    let mut d: usize = a;
    while d < b && v[d] != '.'
        invariant
            a <= d <= b <= v@.len(),
            v@ == line@,
            forall|k: int| a <= k < d ==> v@[k] != '.',
        decreases b - d,
    {
        d += 1;
    }
    proof {
        if d < b {
            assert(is_dot()(t[d - a]));
            assert forall|k: int| 0 <= k < d - a implies !is_dot()(#[trigger] t[k]) by {
                assert(t[k] == v@[a + k]);
            }
            lemma_first_where_is(t, is_dot(), d - a);
        } else {
            assert forall|k: int| 0 <= k < t.len() implies !is_dot()(#[trigger] t[k]) by {
                assert(t[k] == v@[a + k]);
            }
            lemma_first_where_none(t, is_dot());
        }
    }
    if d < b {
        let int_part = parse_u64_range(&v, a, d);
        let frac_ok = all_digits_range(&v, d + 1, b);
        proof {
            assert(t.take(d - a) =~= v@.subrange(a as int, d as int));
            assert(t.skip(d - a + 1) =~= v@.subrange(d + 1, b as int));
        }
        match int_part {
            Some(n) => if frac_ok {
                Some(n)
            } else {
                None
            },
            None => None,
        }
    } else {
        let whole = parse_u64_range(&v, a, b);
        proof {
            assert(t =~= v@.subrange(a as int, b as int));
        }
        whole
    }
}

/// The text between the first occurrence of `pat` and the next quote, the way
/// a label's value sits in a metric line.
pub open spec fn spec_extract_quoted(line: Seq<char>, pat: Seq<char>) -> Option<Seq<char>> {
    match spec_find(line, pat, 0) {
        None => None,
        Some(p0) => {
            let st = p0 + pat.len();
            match spec_find(line, "\""@, st as int) {
                None => None,
                Some(en) => Some(line.subrange(st as int, en)),
            }
        },
    }
}

/// The bounds of the quoted value after `pat`, if the line holds one.
fn find_quoted(line: &str, pat: &str) -> (r: Option<(usize, usize)>)
    ensures
        match r {
            Some((st, en)) => st <= en <= line@.len() && spec_extract_quoted(line@, pat@) == Some(
                line@.subrange(st as int, en as int),
            ),
            None => spec_extract_quoted(line@, pat@) is None,
        },
{
    let v = chars_of(line);
    let pv = chars_of(pat);
    match find_at(&v, &pv, 0) {
        None => None,
        Some(p0) => {
            proof {
                assert(p0 + pv@.len() <= v@.len());
                assert(v.len() == v@.len());
            }
            let st = p0 + pv.len();
            let qv = chars_of("\"");
            proof {
                assert(qv@ == "\""@);
            }
            match find_at(&v, &qv, st) {
                None => None,
                Some(en) => {
                    proof {
                        assert(en + "\""@.len() <= v@.len());
                    }
                    Some((st, en))
                },
            }
        },
    }
}

/// The status code a response-count line carries in its `status_code` label:
/// a run of digits that fits in a `u16`.
pub open spec fn spec_extract_status_code(line: Seq<char>) -> Option<u16> {
    match spec_extract_quoted(line, "status_code=\""@) {
        Some(t) => if t.len() >= 1 && all_digits(t) && dec_val(t) <= u16::MAX {
            Some(dec_val(t) as u16)
        } else {
            None
        },
        None => None,
    }
}

/// Reads the status code out of a response-count line.
pub fn extract_status_code(line: &str) -> (r: Option<u16>)
    ensures
        r == spec_extract_status_code(line@),
{
    match find_quoted(line, "status_code=\"") {
        None => None,
        Some((st, en)) => {
            let v = chars_of(line);
            match parse_u64_range(&v, st, en) {
                Some(n) => if n <= 0xffff {
                    Some(n as u16)
                } else {
                    None
                },
                None => None,
            }
        },
    }
}

/// The edge location a server-location line carries in its `edge_location`
/// label.
pub open spec fn spec_extract_edge_location(line: Seq<char>) -> Option<Seq<char>> {
    spec_extract_quoted(line, "edge_location=\""@)
}

/// Reads the edge location out of a server-location line.
pub fn extract_edge_location(line: &str) -> (r: Option<String>)
    ensures
        match r {
            Some(l) => spec_extract_edge_location(line@) == Some(l@),
            None => spec_extract_edge_location(line@) is None,
        },
{
    match find_quoted(line, "edge_location=\"") {
        None => None,
        Some((st, en)) => Some(line.substring_char(st, en).to_owned()),
    }
}

/// Where a location belongs in a sorted list of distinct locations: inserted
/// before the first greater entry, or dropped when already present.
pub open spec fn sorted_insert(s: Seq<Seq<char>>, x: Seq<char>) -> Seq<Seq<char>>
    decreases s.len(),
{
    if s.len() == 0 {
        seq![x]
    } else if x == s[0] {
        s
    } else if lex_leq(x, s[0]) {
        seq![x] + s
    } else {
        seq![s[0]] + sorted_insert(s.drop_first(), x)
    }
}

proof fn lemma_sorted_insert_skip(s: Seq<Seq<char>>, x: Seq<char>, i: int)
    requires
        0 <= i <= s.len(),
        forall|k: int| 0 <= k < i ==> #[trigger] s[k] != x && !lex_leq(x, s[k]),
    ensures
        sorted_insert(s, x) == s.take(i) + sorted_insert(s.skip(i), x),
    decreases i,
{
    if i == 0 {
        assert(s.skip(0) =~= s);
        assert(s.take(0) + sorted_insert(s, x) =~= sorted_insert(s, x));
    } else {
        lemma_sorted_insert_skip(s, x, i - 1);
        assert(s.skip(i - 1).len() > 0);
        assert(s.skip(i - 1)[0] == s[i - 1]);
        assert(sorted_insert(s.skip(i - 1), x) == seq![s[i - 1]] + sorted_insert(
            s.skip(i - 1).drop_first(),
            x,
        ));
        assert(s.skip(i - 1).drop_first() =~= s.skip(i));
        assert(s.take(i - 1) + (seq![s[i - 1]] + sorted_insert(s.skip(i), x)) =~= s.take(i)
            + sorted_insert(s.skip(i), x));
    }
}

/// Inserts a location into its sorted place, once.
fn insert_location(locs: &mut Vec<String>, x: String)
    ensures
        final(locs).deep_view() == sorted_insert(old(locs).deep_view(), x@),
{
    let ghost s = old(locs).deep_view();
    let mut i: usize = 0;
    while i < locs.len()
        invariant
            i <= locs@.len(),
            locs.deep_view() == s,
            locs@ == old(locs)@,
            forall|k: int| 0 <= k < i ==> #[trigger] s[k] != x@ && !lex_leq(x@, s[k]),
        decreases locs@.len() - i,
    {
        proof {
            assert(s[i as int] == locs@[i as int]@);
        }
        if str_eq(locs[i].as_str(), x.as_str()) {
            proof {
                lemma_sorted_insert_skip(s, x@, i as int);
                assert(s.skip(i as int)[0] == s[i as int]);
                assert(sorted_insert(s.skip(i as int), x@) == s.skip(i as int));
                assert(s.take(i as int) + s.skip(i as int) =~= s);
            }
            return ;
        }
        if str_lex_leq(x.as_str(), locs[i].as_str()) {
            proof {
                lemma_sorted_insert_skip(s, x@, i as int);
                assert(s.skip(i as int)[0] == s[i as int]);
                assert(sorted_insert(s.skip(i as int), x@) == seq![x@] + s.skip(i as int));
            }
            locs.insert(i, x);
            proof {
                assert(locs.deep_view() =~= s.take(i as int) + (seq![x@] + s.skip(i as int)));
            }
            return ;
        }
        i += 1;
    }
    proof {
        lemma_sorted_insert_skip(s, x@, s.len() as int);
        assert(s.skip(s.len() as int).len() == 0);
        assert(sorted_insert(s.skip(s.len() as int), x@) == seq![x@]);
    }
    locs.push(x);
    proof {
        assert(locs.deep_view() =~= s.take(s.len() as int) + seq![x@]);
    }
}

/// Everything one pass of the parser has gathered.
pub ghost struct MetricsModel {
    pub total: u64,
    pub errors: u64,
    pub ha: u64,
    pub conc: u64,
    pub codes: Map<u16, u64>,
    pub locs: Seq<Seq<char>>,
}

/// The parser's starting state: every counter zero, nothing seen.
pub open spec fn metrics_init() -> MetricsModel {
    MetricsModel {
        total: 0,
        errors: 0,
        ha: 0,
        conc: 0,
        codes: Map::empty(),
        locs: Seq::empty(),
    }
}

/// What one metric line contributes: comments and blank lines nothing; each
/// known counter its value; a response-count line one code-count pair; a
/// server-location line one location, kept sorted and distinct.
pub open spec fn metrics_step(m: MetricsModel, line: Seq<char>) -> MetricsModel {
    if seq_starts_with(line, "#"@) || line.len() == 0 {
        m
    } else if seq_starts_with(line, "cloudflared_tunnel_total_requests "@) {
        match spec_extract_value(line) {
            Some(n) => MetricsModel { total: n, ..m },
            None => m,
        }
    } else if seq_starts_with(line, "cloudflared_tunnel_request_errors "@) {
        match spec_extract_value(line) {
            Some(n) => MetricsModel { errors: n, ..m },
            None => m,
        }
    } else if seq_starts_with(line, "cloudflared_tunnel_ha_connections "@) {
        match spec_extract_value(line) {
            Some(n) => MetricsModel { ha: n, ..m },
            None => m,
        }
    } else if seq_starts_with(line, "cloudflared_tunnel_concurrent_requests_per_tunnel "@) {
        match spec_extract_value(line) {
            Some(n) => MetricsModel { conc: n, ..m },
            None => m,
        }
    } else if seq_starts_with(line, "cloudflared_tunnel_response_by_code{"@) {
        match (spec_extract_status_code(line), spec_extract_value(line)) {
            (Some(c), Some(n)) => MetricsModel { codes: m.codes.insert(c, n), ..m },
            _ => m,
        }
    } else if seq_starts_with(line, "cloudflared_tunnel_server_locations{"@) {
        match spec_extract_edge_location(line) {
            Some(l) => MetricsModel { locs: sorted_insert(m.locs, l), ..m },
            None => m,
        }
    } else {
        m
    }
}

/// The parser's state after the given lines.
pub open spec fn metrics_fold(lines: Seq<Seq<char>>) -> MetricsModel
    decreases lines.len(),
{
    if lines.len() == 0 {
        metrics_init()
    } else {
        metrics_step(metrics_fold(lines.drop_last()), lines.last())
    }
}

/// Parses a metrics page in open-text format: one labeled counter per line.
pub fn parse_prometheus_metrics(text: &str) -> (r: TunnelMetrics)
    ensures
        r.available,
        r.total_requests == metrics_fold(spec_lines(text@)).total,
        r.request_errors == metrics_fold(spec_lines(text@)).errors,
        r.ha_connections == metrics_fold(spec_lines(text@)).ha,
        r.concurrent_requests == metrics_fold(spec_lines(text@)).conc,
        r.response_codes@ == metrics_fold(spec_lines(text@)).codes,
        r.edge_locations.deep_view() == metrics_fold(spec_lines(text@)).locs,
{
    let lines = split_lines(text);
    let mut total: u64 = 0;
    let mut errors: u64 = 0;
    let mut ha: u64 = 0;
    let mut conc: u64 = 0;
    let mut codes: HashMap<u16, u64> = HashMap::new();
    let mut locs: Vec<String> = Vec::new();
    let mut i: usize = 0;
    while i < lines.len()
        invariant
            i <= lines@.len(),
            lines.deep_view() == spec_lines(text@),
            total == metrics_fold(spec_lines(text@).take(i as int)).total,
            errors == metrics_fold(spec_lines(text@).take(i as int)).errors,
            ha == metrics_fold(spec_lines(text@).take(i as int)).ha,
            conc == metrics_fold(spec_lines(text@).take(i as int)).conc,
            codes@ == metrics_fold(spec_lines(text@).take(i as int)).codes,
            locs.deep_view() == metrics_fold(spec_lines(text@).take(i as int)).locs,
        decreases lines@.len() - i,
    {
        let ghost prior = metrics_fold(spec_lines(text@).take(i as int));
        proof {
            assert(spec_lines(text@).take(i + 1).drop_last() =~= spec_lines(text@).take(i as int));
            assert(spec_lines(text@).take(i + 1).last() == spec_lines(text@)[i as int]);
            assert(lines@[i as int]@ == spec_lines(text@)[i as int]);
        }
        let line: &str = lines[i].as_str();
        if str_starts_with(line, "#") || line.is_empty() {
        } else if str_starts_with(line, "cloudflared_tunnel_total_requests ") {
            match extract_value(line) {
                Some(n) => total = n,
                None => {},
            }
        } else if str_starts_with(line, "cloudflared_tunnel_request_errors ") {
            match extract_value(line) {
                Some(n) => errors = n,
                None => {},
            }
        } else if str_starts_with(line, "cloudflared_tunnel_ha_connections ") {
            match extract_value(line) {
                Some(n) => ha = n,
                None => {},
            }
        } else if str_starts_with(line, "cloudflared_tunnel_concurrent_requests_per_tunnel ") {
            match extract_value(line) {
                Some(n) => conc = n,
                None => {},
            }
        } else if str_starts_with(line, "cloudflared_tunnel_response_by_code{") {
            let code = extract_status_code(line);
            let value = extract_value(line);
            match (code, value) {
                (Some(c), Some(n)) => {
                    codes.insert(c, n);
                },
                _ => {},
            }
        } else if str_starts_with(line, "cloudflared_tunnel_server_locations{") {
            match extract_edge_location(line) {
                Some(l) => insert_location(&mut locs, l),
                None => {},
            }
        }
        i += 1;
    }
    proof {
        assert(spec_lines(text@).take(lines@.len() as int) =~= spec_lines(text@));
    }
    TunnelMetrics {
        total_requests: total,
        request_errors: errors,
        ha_connections: ha,
        concurrent_requests: conc,
        response_codes: codes,
        edge_locations: locs,
        available: true,
    }
}

/// The edge locations joined for display: `None` when there are none, else
/// the locations separated by comma and space.
pub open spec fn spec_locations_string(locs: Seq<Seq<char>>) -> Seq<char>
    decreases locs.len(),
{
    if locs.len() == 0 {
        "None"@
    } else if locs.len() == 1 {
        locs[0]
    } else {
        spec_locations_string(locs.drop_last()) + ", "@ + locs.last()
    }
}

impl TunnelMetrics {
    /// The connected edge locations as one display string.
    pub fn locations_string(&self) -> (r: String)
        ensures
            r@ == spec_locations_string(self.edge_locations.deep_view()),
    {
        let ghost locs = self.edge_locations.deep_view();
        if self.edge_locations.len() == 0 {
            return "None".to_owned();
        }
        let mut r = String::new();
        r.append(self.edge_locations[0].as_str());
        proof {
            assert(locs[0] == self.edge_locations@[0]@);
            assert(r@ =~= spec_locations_string(locs.take(1)));
        }
        let mut i: usize = 1;
        while i < self.edge_locations.len()
            invariant
                1 <= i <= locs.len(),
                locs == self.edge_locations.deep_view(),
                locs.len() == self.edge_locations@.len(),
                r@ == spec_locations_string(locs.take(i as int)),
            decreases locs.len() - i,
        {
            r.append(", ");
            r.append(self.edge_locations[i].as_str());
            i += 1;
            proof {
                assert(locs.take(i as int).drop_last() =~= locs.take(i - 1));
                assert(locs.take(i as int).last() == locs[i - 1]);
                assert(r@ =~= spec_locations_string(locs.take(i as int)));
            }
        }
        proof {
            assert(locs.take(locs.len() as int) =~= locs);
        }
        r
    }
}

} // verus!
