use proxy::dispatch::{
    after_probe, backend_for, exact_file_outcome, forward_outcome, route, route_after_miss,
    static_candidate, Outcome, Route, StaticProbe, Step,
};
use proxy::error::ErrorKind;
use proxy::rules::{
    parse_exact_file, parse_static_dir, parse_sub_proxy, Backend, ExactFileRule, RuleSet,
    StaticDirRule, SubProxyRule,
};

fn exact(s: &str) -> ExactFileRule {
    parse_exact_file(s).ok().unwrap()
}

fn static_dir(s: &str) -> StaticDirRule {
    parse_static_dir(s).ok().unwrap()
}

fn sub(s: &str) -> SubProxyRule {
    parse_sub_proxy(s).ok().unwrap()
}

fn rule_set(
    exact_files: Vec<ExactFileRule>,
    static_dirs: Vec<StaticDirRule>,
    sub_proxies: Vec<SubProxyRule>,
    default: &str,
) -> RuleSet {
    RuleSet { exact_files, static_dirs, sub_proxies, default_proxy: Backend::new(default) }
}

fn probe(base: &str, target: Option<&str>, is_file: bool) -> StaticProbe {
    StaticProbe {
        base: Some(base.to_string()),
        target: target.map(|t| t.to_string()),
        is_file,
    }
}

#[test]
fn exact_file_and_default_proxy_scenario() {
    let rs = rule_set(vec![exact("/,index.html,text/html")], vec![], vec![], "localhost:9000");
    assert_eq!(route(&rs, "/"), Route::ServeExact(0));
    assert_eq!(rs.exact_files[0].file_path, "index.html");
    assert_eq!(rs.exact_files[0].content_type, "text/html");
    assert_eq!(exact_file_outcome(true), Outcome::Served);

    let r = route(&rs, "/other");
    assert_eq!(r, Route::ForwardDefault);
    let b = backend_for(&rs, r);
    assert_eq!(b.addr, "localhost:9000");
    assert_eq!(b.host_header(), "localhost");
    assert_eq!(forward_outcome(true), Outcome::Forwarded);
}

#[test]
fn unreachable_sub_proxy_is_terminal() {
    let rs = rule_set(vec![], vec![], vec![sub("/api/,localhost:4500")], "localhost:9000");
    let r = route(&rs, "/api/ping");
    assert_eq!(r, Route::ForwardSub(0));
    assert_eq!(backend_for(&rs, r).addr, "localhost:4500");
    let out = forward_outcome(false);
    assert_eq!(out, Outcome::Failed(ErrorKind::ForwardingFailure));
    if let Outcome::Failed(kind) = out {
        assert_eq!(kind.status_code(), 500);
        assert_eq!(kind.response_body(), "Something went wrong");
    }
}

#[test]
fn exact_file_beats_sub_proxy() {
    let rs = rule_set(
        vec![exact("/api/x,x.json,application/json")],
        vec![static_dir("/api/,api")],
        vec![sub("/api/,localhost:4500")],
        "localhost:9000",
    );
    assert_eq!(route(&rs, "/api/x"), Route::ServeExact(0));
    assert_eq!(route(&rs, "/api/y"), Route::ProbeStatic(0));
    assert_eq!(route(&rs, "/api/x/"), Route::ProbeStatic(0));
}

#[test]
fn exact_match_is_case_sensitive_and_exact() {
    let rs = rule_set(vec![exact("/Index,i.html,text/html")], vec![], vec![], "localhost:9000");
    assert_eq!(route(&rs, "/index"), Route::ForwardDefault);
    assert_eq!(route(&rs, "/Index/"), Route::ForwardDefault);
    assert_eq!(route(&rs, "/Index"), Route::ServeExact(0));
}

#[test]
fn first_listed_rule_wins_within_a_group() {
    let rs = rule_set(
        vec![exact("/a,one,text/plain"), exact("/a,two,text/plain")],
        vec![],
        vec![sub("/,localhost:1"), sub("/api/,localhost:2")],
        "localhost:9000",
    );
    assert_eq!(route(&rs, "/a"), Route::ServeExact(0));
    assert_eq!(route(&rs, "/api/v1"), Route::ForwardSub(0));
}

#[test]
fn unopenable_exact_file_is_an_io_error() {
    assert_eq!(exact_file_outcome(false), Outcome::Failed(ErrorKind::IoError));
}

#[test]
fn traversal_under_static_rule_is_a_hard_error() {
    let rs = rule_set(vec![], vec![static_dir("/static/,/srv/public")], vec![], "localhost:9000");
    let url = "/static/../../etc/passwd";
    assert_eq!(route(&rs, url), Route::ProbeStatic(0));
    assert_eq!(static_candidate(&rs.static_dirs[0], url), Some("/srv/public/../../etc/passwd".to_string()));
    let step = after_probe(&rs, url, 0, probe("/srv/public", Some("/etc/passwd"), true));
    assert!(matches!(step, Step::Fail(ErrorKind::TraversalAttempt)));
    let step = after_probe(&rs, url, 0, probe("/srv/public", Some("/etc"), false));
    assert!(matches!(step, Step::Fail(ErrorKind::TraversalAttempt)));
}

#[test]
fn static_miss_falls_through_to_default() {
    let rs = rule_set(vec![], vec![static_dir("/static/,/srv/public")], vec![], "localhost:9000");
    let step = after_probe(&rs, "/static/missing.js", 0, probe("/srv/public", None, false));
    assert!(matches!(step, Step::Continue(Route::ForwardDefault)));
    let step = after_probe(&rs, "/static/dir", 0, probe("/srv/public", Some("/srv/public/dir"), false));
    assert!(matches!(step, Step::Continue(Route::ForwardDefault)));
}

#[test]
fn static_miss_falls_through_to_next_group() {
    let rs = rule_set(
        vec![],
        vec![static_dir("/s/,one"), static_dir("/x/,other"), static_dir("/s/,two")],
        vec![sub("/s/,localhost:4500")],
        "localhost:9000",
    );
    assert_eq!(route(&rs, "/s/a.js"), Route::ProbeStatic(0));
    let step = after_probe(&rs, "/s/a.js", 0, probe("/srv/one", None, false));
    assert!(matches!(step, Step::Continue(Route::ProbeStatic(2))));
    assert_eq!(route_after_miss(&rs, "/s/a.js", 2), Route::ForwardSub(0));
    let step = after_probe(&rs, "/s/a.js", 2, probe("/srv/two", None, false));
    assert!(matches!(step, Step::Continue(Route::ForwardSub(0))));
}

#[test]
fn static_hit_serves_the_resolved_file() {
    let rs = rule_set(vec![], vec![static_dir("/static/,public")], vec![], "localhost:9000");
    assert_eq!(static_candidate(&rs.static_dirs[0], "/static/app.js"), Some("public/app.js".to_string()));
    assert_eq!(static_candidate(&rs.static_dirs[0], "/other/app.js"), None);
    match after_probe(&rs, "/static/app.js", 0, probe("/srv/public", Some("/srv/public/app.js"), true)) {
        Step::ServeStatic(p) => assert_eq!(p.path(), "/srv/public/app.js"),
        _ => panic!("expected the file to be served"),
    }
}
