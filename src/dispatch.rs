//! Priority dispatch of a request over a rule set: exact files, then
//! static directories, then sub-proxies, then the default backend.
//!
//! The file system and the network stay with the caller. [`route`] names
//! the first thing to do for a URL; after probing a static directory,
//! [`after_probe`] names the next. Serving an exact file or forwarding is
//! always terminal: a failure there ends the request with an error.
use vstd::prelude::*;
use crate::error::ErrorKind;
use crate::paths::{join_path, join_under, opt_view, resolution, resolve, ResolvedPath};
use crate::rules::{Backend, ExactFileRule, RuleSet, StaticDirRule, SubProxyRule};
use crate::text::has_prefix;

verus! {

/// What to do next for a request.
#[derive(Clone, Copy, Debug, PartialEq, Eq, Structural)]
pub enum Route {
    /// Serve the file of this exact-file rule; a failure to open it is an
    /// `IoError`.
    ServeExact(usize),
    /// Probe the directory of this static-directory rule.
    ProbeStatic(usize),
    /// Forward to the backend of this sub-proxy rule.
    ForwardSub(usize),
    /// Forward to the default backend.
    ForwardDefault,
}

/// First exact-file rule at or after `from` whose URL is `url`.
pub open spec fn exact_from(rules: Seq<ExactFileRule>, url: Seq<char>, from: int) -> Option<int>
    decreases rules.len() - from,
{
    if from < 0 || from >= rules.len() {
        None
    } else if rules[from].url@ == url {
        Some(from)
    } else {
        exact_from(rules, url, from + 1)
    }
}

/// Forwarding route for `url`: the first sub-proxy rule at or after `from`
/// whose prefix starts it, else the default backend.
pub open spec fn proxy_route(rules: Seq<SubProxyRule>, url: Seq<char>, from: int) -> Route
    decreases rules.len() - from,
{
    if from < 0 || from >= rules.len() {
        Route::ForwardDefault
    } else if rules[from].url_prefix@.is_prefix_of(url) {
        Route::ForwardSub(from as usize)
    } else {
        proxy_route(rules, url, from + 1)
    }
}

/// Route for `url` once the exact-file rules and the static-directory
/// rules before `from` are out of the running.
pub open spec fn route_from(rs: RuleSet, url: Seq<char>, from: int) -> Route
    decreases rs.static_dirs@.len() - from,
{
    if from < 0 || from >= rs.static_dirs@.len() {
        proxy_route(rs.sub_proxies@, url, 0)
    } else if rs.static_dirs@[from].url_prefix@.is_prefix_of(url) {
        Route::ProbeStatic(from as usize)
    } else {
        route_from(rs, url, from + 1)
    }
}

/// First route for `url`.
pub open spec fn route_of(rs: RuleSet, url: Seq<char>) -> Route {
    match exact_from(rs.exact_files@, url, 0) {
        Some(i) => Route::ServeExact(i as usize),
        None => route_from(rs, url, 0),
    }
}

/// First sub-proxy rule at or after `from` that claims `url`.
fn proxy_route_from(subs: &Vec<SubProxyRule>, url: &str, from: usize) -> (r: Route)
    ensures
        r == proxy_route(subs@, url@, from as int),
{
    let mut i = from;
    while i < subs.len()
        invariant
            proxy_route(subs@, url@, from as int) == proxy_route(subs@, url@, i as int),
        decreases subs@.len() - i,
    {
        if has_prefix(url, subs[i].url_prefix.as_str()) {
            return Route::ForwardSub(i);
        }
        i += 1;
    }
    Route::ForwardDefault
}

/// Route once the static-directory rules before `from` are out of the
/// running.
fn static_route_from(rules: &RuleSet, url: &str, from: usize) -> (r: Route)
    ensures
        r == route_from(*rules, url@, from as int),
{
    let mut i = from;
    while i < rules.static_dirs.len()
        invariant
            route_from(*rules, url@, from as int) == route_from(*rules, url@, i as int),
        decreases rules.static_dirs@.len() - i,
    {
        if has_prefix(url, rules.static_dirs[i].url_prefix.as_str()) {
            return Route::ProbeStatic(i);
        }
        i += 1;
    }
    proxy_route_from(&rules.sub_proxies, url, 0)
}

/// The first thing to do for a request to `url`: the first exact-file rule
/// for it, else the first static directory whose prefix starts it, else
/// the first such sub-proxy, else the default backend.
pub fn route(rules: &RuleSet, url: &str) -> (r: Route)
    ensures
        r == route_of(*rules, url@),
{
    let mut i: usize = 0;
    while i < rules.exact_files.len()
        invariant
            exact_from(rules.exact_files@, url@, 0) == exact_from(rules.exact_files@, url@, i as int),
        decreases rules.exact_files@.len() - i,
    {
        if crate::paths::same_text(rules.exact_files[i].url.as_str(), url) {
            return Route::ServeExact(i);
        }
        i += 1;
    }
    static_route_from(rules, url, 0)
}

/// Where dispatch goes when static-directory rule `rule` misses: on to the
/// next static directory whose prefix matches, then the sub-proxies, then
/// the default backend.
pub fn route_after_miss(rules: &RuleSet, url: &str, rule: usize) -> (r: Route)
    requires
        rule < rules.static_dirs@.len(),
    ensures
        r == route_from(*rules, url@, rule + 1),
{
    let n = rules.static_dirs.len();
    assert(rule < n);
    static_route_from(rules, url, rule + 1)
}

/// The path to probe for `url` under a static-directory rule: the URL with
/// the rule's prefix stripped, joined under its directory; `None` where
/// the prefix does not start the URL.
pub fn static_candidate(rule: &StaticDirRule, url: &str) -> (r: Option<String>)
    ensures
        r is Some <==> rule.url_prefix@.is_prefix_of(url@),
        r matches Some(p) ==> p@ == join_under(
            rule.base_dir@,
            url@.skip(rule.url_prefix@.len() as int),
        ),
{
    if !has_prefix(url, rule.url_prefix.as_str()) {
        return None;
    }
    let k = rule.url_prefix.as_str().unicode_len();
    let n = url.unicode_len();
    let rest = url.substring_char(k, n);
    assert(rest@ =~= url@.skip(k as int));
    Some(join_path(rule.base_dir.as_str(), rest))
}

/// What the file system said about a static-directory candidate: its
/// directory and the candidate itself, each canonicalized (`None` where
/// that failed), and whether the candidate is a regular file.
pub struct StaticProbe {
    pub base: Option<String>,
    pub target: Option<String>,
    pub is_file: bool,
}

/// How a static-directory probe ends.
#[derive(Clone, Copy, Debug, PartialEq, Eq, Structural)]
pub enum Verdict {
    /// A file inside the directory: serve it.
    Hit,
    /// Nothing to serve (absent, or a directory): fall through.
    Miss,
    /// The candidate escapes the directory: a hard error.
    Traversal,
}

/// The verdict on a probe: a path outside the base is a traversal attempt
/// whether or not it is a file; a missing path and a directory are misses.
pub open spec fn verdict_of(base: Option<Seq<char>>, target: Option<Seq<char>>, is_file: bool) -> Verdict {
    match resolution(base, target) {
        Ok(_) => if is_file {
            Verdict::Hit
        } else {
            Verdict::Miss
        },
        Err(ErrorKind::TraversalAttempt) => Verdict::Traversal,
        Err(_) => Verdict::Miss,
    }
}

/// The verdict on a probe, as values.
pub open spec fn probe_verdict(p: StaticProbe) -> Verdict {
    verdict_of(opt_view(p.base), opt_view(p.target), p.is_file)
}

/// What follows a static-directory probe.
pub enum Step {
    /// Serve this file.
    ServeStatic(ResolvedPath),
    /// End the request with this error.
    Fail(ErrorKind),
    /// Go on with this route.
    Continue(Route),
}

/// The next step after probing static-directory rule `rule` for `url`: a
/// hit is served, a traversal attempt fails the request, and a miss falls
/// through to the rest of the rule set.
pub fn after_probe(rules: &RuleSet, url: &str, rule: usize, probe: StaticProbe) -> (r: Step)
    requires
        rule < rules.static_dirs@.len(),
    ensures
        match probe_verdict(probe) {
            Verdict::Hit => r matches Step::ServeStatic(p) && p.path_view() == probe.target->0@
                && p.base_view() == probe.base->0@,
            Verdict::Traversal => r == Step::Fail(ErrorKind::TraversalAttempt),
            Verdict::Miss => r == Step::Continue(route_from(*rules, url@, rule + 1)),
        },
{
    let is_file = probe.is_file;
    match resolve(probe.base, probe.target) {
        Ok(p) => {
            if is_file {
                Step::ServeStatic(p)
            } else {
                Step::Continue(route_after_miss(rules, url, rule))
            }
        },
        Err(ErrorKind::TraversalAttempt) => Step::Fail(ErrorKind::TraversalAttempt),
        Err(_) => Step::Continue(route_after_miss(rules, url, rule)),
    }
}

/// How a request ended.
#[derive(Clone, Copy, Debug, PartialEq, Eq, Structural)]
pub enum Outcome {
    /// A file was served.
    Served,
    /// A backend's response was passed back.
    Forwarded,
    /// The request failed; no other rule is tried.
    Failed(ErrorKind),
}

/// How serving an exact file ends: a file that cannot be opened is a hard
/// error, never a reason to try other rules.
pub fn exact_file_outcome(opened: bool) -> (r: Outcome)
    ensures
        r == if opened {
            Outcome::Served
        } else {
            Outcome::Failed(ErrorKind::IoError)
        },
{
    if opened {
        Outcome::Served
    } else {
        Outcome::Failed(ErrorKind::IoError)
    }
}

/// How forwarding ends: a backend that cannot be reached, or that answers
/// with something other than HTTP, is a forwarding failure, with no retry
/// and no fall-through to the default backend.
pub fn forward_outcome(answered: bool) -> (r: Outcome)
    ensures
        r == if answered {
            Outcome::Forwarded
        } else {
            Outcome::Failed(ErrorKind::ForwardingFailure)
        },
{
    if answered {
        Outcome::Forwarded
    } else {
        Outcome::Failed(ErrorKind::ForwardingFailure)
    }
}

/// The backend a forwarding route goes to.
pub open spec fn backend_of(rs: RuleSet, route: Route) -> Backend {
    match route {
        Route::ForwardSub(i) => rs.sub_proxies@[i as int].backend,
        _ => rs.default_proxy,
    }
}

/// The backend to forward to on `route`: the sub-proxy's own, or the
/// default one.
pub fn backend_for(rules: &RuleSet, route: Route) -> (r: &Backend)
    requires
        route matches Route::ForwardSub(i) ==> i < rules.sub_proxies@.len(),
    ensures
        *r == backend_of(*rules, route),
{
    match route {
        Route::ForwardSub(i) => &rules.sub_proxies[i].backend,
        _ => &rules.default_proxy,
    }
}

/// The rule that ends the dispatch of a request.
#[derive(Clone, Copy, Debug, PartialEq, Eq, Structural)]
pub enum Handler {
    /// This exact-file rule serves the request.
    Exact(usize),
    /// This static directory serves the request.
    Static(usize),
    /// The request is forwarded to this sub-proxy's backend.
    SubProxy(usize),
    /// The request is forwarded to the default backend.
    DefaultProxy,
    /// The request fails without reaching any later rule.
    HardError,
}

/// Where `route_from` leads: to the first static directory at or after
/// `from` whose prefix matches, or, where there is none, to forwarding.
pub proof fn lemma_route_from(rs: RuleSet, url: Seq<char>, from: int)
    requires
        0 <= from,
    ensures
        route_from(rs, url, from) matches Route::ProbeStatic(m) ==> {
            &&& from <= m < rs.static_dirs@.len()
            &&& rs.static_dirs@[m as int].url_prefix@.is_prefix_of(url)
            &&& forall|k: int|
                from <= k < m ==> !(#[trigger] rs.static_dirs@[k]).url_prefix@.is_prefix_of(url)
        },
        !(route_from(rs, url, from) is ProbeStatic) ==> {
            &&& route_from(rs, url, from) == proxy_route(rs.sub_proxies@, url, 0)
            &&& forall|k: int|
                from <= k < rs.static_dirs@.len() ==> !(#[trigger] rs.static_dirs@[k]).url_prefix@.is_prefix_of(url)
        },
    decreases rs.static_dirs@.len() - from,
{
    vstd::std_specs::vec::axiom_spec_len(&rs.static_dirs);
    vstd::std_specs::vec::axiom_spec_len(&rs.sub_proxies);
    lemma_proxy_route(rs.sub_proxies@, url, 0);
    if from < rs.static_dirs@.len() && !rs.static_dirs@[from].url_prefix@.is_prefix_of(url) {
        lemma_route_from(rs, url, from + 1);
    }
}

#[via_fn]
proof fn handler_from_decreases(rs: RuleSet, url: Seq<char>, from: int, probes: spec_fn(int) -> Verdict) {
    if from >= 0 {
        lemma_route_from(rs, url, from);
    }
}

/// The rule that ends dispatch once the static directories before `from`
/// are out of the running, where `probes(i)` is how probing static
/// directory `i` ends.
pub open spec fn handler_from(rs: RuleSet, url: Seq<char>, from: int, probes: spec_fn(int) -> Verdict) -> Handler
    decreases rs.static_dirs@.len() - from,
    via handler_from_decreases
{
    if from < 0 {
        Handler::HardError
    } else {
        match route_from(rs, url, from) {
            Route::ProbeStatic(i) => match probes(i as int) {
                Verdict::Hit => Handler::Static(i),
                Verdict::Traversal => Handler::HardError,
                Verdict::Miss => handler_from(rs, url, i + 1, probes),
            },
            Route::ForwardSub(j) => Handler::SubProxy(j),
            _ => Handler::DefaultProxy,
        }
    }
}

/// The rule that ends the dispatch of a request to `url`, following the
/// routes of [`route`] and [`after_probe`].
pub open spec fn handler_of(rs: RuleSet, url: Seq<char>, probes: spec_fn(int) -> Verdict) -> Handler {
    match route_of(rs, url) {
        Route::ServeExact(i) => Handler::Exact(i),
        _ => handler_from(rs, url, 0, probes),
    }
}

/// The handler that forwarding picks.
pub open spec fn forwarding_handler(rs: RuleSet, url: Seq<char>) -> Handler {
    match proxy_route(rs.sub_proxies@, url, 0) {
        Route::ForwardSub(j) => Handler::SubProxy(j),
        _ => Handler::DefaultProxy,
    }
}

proof fn lemma_exact_from_finds(rules: Seq<ExactFileRule>, url: Seq<char>, from: int, i: int)
    requires
        0 <= from <= i < rules.len(),
        rules[i].url@ == url,
    ensures
        exact_from(rules, url, from) matches Some(j) && from <= j <= i && rules[j].url@ == url,
    decreases i - from,
{
    if rules[from].url@ != url {
        lemma_exact_from_finds(rules, url, from + 1, i);
    }
}

/// Dispatch reaches static directory `i` when the directories before it
/// that match the URL all missed.
proof fn lemma_handler_reaches(rs: RuleSet, url: Seq<char>, probes: spec_fn(int) -> Verdict, from: int, i: int)
    requires
        0 <= from <= i < rs.static_dirs@.len(),
        rs.static_dirs@[i].url_prefix@.is_prefix_of(url),
        forall|k: int|
            from <= k < i && (#[trigger] rs.static_dirs@[k]).url_prefix@.is_prefix_of(url) ==> probes(k)
                == Verdict::Miss,
    ensures
        handler_from(rs, url, from, probes) == match probes(i) {
            Verdict::Hit => Handler::Static(i as usize),
            Verdict::Traversal => Handler::HardError,
            Verdict::Miss => handler_from(rs, url, i + 1, probes),
        },
    decreases i - from,
{
    lemma_route_from(rs, url, from);
    if let Route::ProbeStatic(m) = route_from(rs, url, from) {
        if (m as int) < i {
            lemma_handler_reaches(rs, url, probes, m + 1, i);
        }
    }
}

/// Where every matching static directory from `from` on misses, dispatch
/// forwards.
proof fn lemma_handler_all_miss(rs: RuleSet, url: Seq<char>, probes: spec_fn(int) -> Verdict, from: int)
    requires
        0 <= from,
        forall|k: int|
            from <= k < rs.static_dirs@.len() && (#[trigger] rs.static_dirs@[k]).url_prefix@.is_prefix_of(url)
                ==> probes(k) == Verdict::Miss,
    ensures
        handler_from(rs, url, from, probes) == forwarding_handler(rs, url),
    decreases rs.static_dirs@.len() - from,
{
    lemma_route_from(rs, url, from);
    if let Route::ProbeStatic(m) = route_from(rs, url, from) {
        lemma_handler_all_miss(rs, url, probes, m + 1);
    }
}

/// Dispatch forwards only after every matching static directory missed.
proof fn lemma_forwarded_all_missed(rs: RuleSet, url: Seq<char>, probes: spec_fn(int) -> Verdict, from: int)
    requires
        0 <= from,
        handler_from(rs, url, from, probes) is SubProxy || handler_from(rs, url, from, probes) is DefaultProxy,
    ensures
        forall|k: int|
            from <= k < rs.static_dirs@.len() && (#[trigger] rs.static_dirs@[k]).url_prefix@.is_prefix_of(url)
                ==> probes(k) == Verdict::Miss,
    decreases rs.static_dirs@.len() - from,
{
    lemma_route_from(rs, url, from);
    if let Route::ProbeStatic(m) = route_from(rs, url, from) {
        lemma_forwarded_all_missed(rs, url, probes, m + 1);
    }
}

/// An exact-file rule for the URL decides the request, before any static
/// directory, sub-proxy or the default backend, whatever prefixes also
/// match: the first such rule serves it.
pub proof fn exact_file_rule_wins(rs: RuleSet, url: Seq<char>, probes: spec_fn(int) -> Verdict, i: int)
    requires
        0 <= i < rs.exact_files@.len(),
        rs.exact_files@[i].url@ == url,
    ensures
        route_of(rs, url) matches Route::ServeExact(j) && j <= i && rs.exact_files@[j as int].url@ == url,
        handler_of(rs, url, probes) matches Handler::Exact(j) && j <= i,
{
    vstd::std_specs::vec::axiom_spec_len(&rs.exact_files);
    lemma_exact_from_finds(rs.exact_files@, url, 0, i);
}

/// A request whose static-directory candidate resolves outside the
/// directory ends in a hard error: it is neither forwarded to a backend
/// nor passed on to a later rule. This holds for the directory that
/// dispatch reaches, that is with no exact-file rule for the URL and with
/// every earlier matching directory missing.
pub proof fn escape_is_hard_error(
    rs: RuleSet,
    url: Seq<char>,
    probes: spec_fn(int) -> Verdict,
    i: int,
    base: Seq<char>,
    target: Seq<char>,
    is_file: bool,
)
    requires
        exact_from(rs.exact_files@, url, 0) is None,
        0 <= i < rs.static_dirs@.len(),
        rs.static_dirs@[i].url_prefix@.is_prefix_of(url),
        forall|k: int|
            0 <= k < i && (#[trigger] rs.static_dirs@[k]).url_prefix@.is_prefix_of(url) ==> probes(k)
                == Verdict::Miss,
        probes(i) == verdict_of(Some(base), Some(target), is_file),
        !crate::paths::is_within(base, target),
    ensures
        probes(i) == Verdict::Traversal,
        handler_of(rs, url, probes) == Handler::HardError,
{
    lemma_route_from(rs, url, 0);
    lemma_handler_reaches(rs, url, probes, 0, i);
}

/// A request reaches a backend only if every static directory whose prefix
/// matches it missed: no traversal attempt is ever forwarded.
pub proof fn forwarding_follows_only_misses(rs: RuleSet, url: Seq<char>, probes: spec_fn(int) -> Verdict)
    requires
        handler_of(rs, url, probes) is SubProxy || handler_of(rs, url, probes) is DefaultProxy,
    ensures
        forall|k: int|
            0 <= k < rs.static_dirs@.len() && (#[trigger] rs.static_dirs@[k]).url_prefix@.is_prefix_of(url)
                ==> probes(k) == Verdict::Miss,
{
    lemma_route_from(rs, url, 0);
    lemma_forwarded_all_missed(rs, url, probes, 0);
}

/// When every static directory that matches a request misses, and no
/// exact-file rule is for it, dispatch falls through to the sub-proxies,
/// and to the default backend where no sub-proxy prefix matches.
pub proof fn misses_fall_through(rs: RuleSet, url: Seq<char>, probes: spec_fn(int) -> Verdict)
    requires
        exact_from(rs.exact_files@, url, 0) is None,
        forall|k: int|
            0 <= k < rs.static_dirs@.len() && (#[trigger] rs.static_dirs@[k]).url_prefix@.is_prefix_of(url)
                ==> probes(k) == Verdict::Miss,
    ensures
        handler_of(rs, url, probes) == forwarding_handler(rs, url),
        (forall|j: int|
            0 <= j < rs.sub_proxies@.len() ==> !(#[trigger] rs.sub_proxies@[j]).url_prefix@.is_prefix_of(url))
            ==> handler_of(rs, url, probes) == Handler::DefaultProxy,
{
    vstd::std_specs::vec::axiom_spec_len(&rs.sub_proxies);
    lemma_route_from(rs, url, 0);
    lemma_handler_all_miss(rs, url, probes, 0);
    lemma_proxy_route(rs.sub_proxies@, url, 0);
}

/// Forwarding goes to the first sub-proxy whose prefix matches, else to the
/// default backend.
pub proof fn lemma_proxy_route(rules: Seq<SubProxyRule>, url: Seq<char>, from: int)
    requires
        0 <= from,
        rules.len() <= usize::MAX,
    ensures
        proxy_route(rules, url, from) is ForwardSub || proxy_route(rules, url, from) is ForwardDefault,
        proxy_route(rules, url, from) matches Route::ForwardSub(j) ==> from <= j < rules.len()
            && rules[j as int].url_prefix@.is_prefix_of(url),
        (forall|j: int| from <= j < rules.len() ==> !(#[trigger] rules[j]).url_prefix@.is_prefix_of(url))
            ==> proxy_route(rules, url, from) == Route::ForwardDefault,
    decreases rules.len() - from,
{
    if from < rules.len() && !rules[from].url_prefix@.is_prefix_of(url) {
        lemma_proxy_route(rules, url, from + 1);
    }
}

} // verus!
