use proxy::rules::{
    blank, host_part, parse_default_proxy, parse_exact_file, parse_static_dir, parse_sub_proxy,
    Backend, ConfigError, Rule, RuleSet,
};

#[test]
fn exact_file_rule_is_read_from_three_parts() {
    let r = parse_exact_file("/,static/index.html,text/html").ok().unwrap();
    assert_eq!(r.url, "/");
    assert_eq!(r.file_path, "static/index.html");
    assert_eq!(r.content_type, "text/html");
    for bad in ["/,index.html", "/,,text/html", "/,a,b,c", "", ",a,b", "a,b,"] {
        assert_eq!(parse_exact_file(bad).err(), Some(ConfigError::InvalidExactFile));
    }
}

#[test]
fn static_rule_is_read_from_two_parts() {
    let r = parse_static_dir("/static/,static").ok().unwrap();
    assert_eq!(r.url_prefix, "/static/");
    assert_eq!(r.base_dir, "static");
    for bad in ["/static/", "/static/,", ",static", "a,b,c"] {
        assert_eq!(parse_static_dir(bad).err(), Some(ConfigError::InvalidStaticDir));
    }
}

#[test]
fn sub_proxy_rule_sends_host_of_its_address() {
    let r = parse_sub_proxy("/api/,localhost:4500").ok().unwrap();
    assert_eq!(r.url_prefix, "/api/");
    assert_eq!(r.backend.addr, "localhost:4500");
    assert_eq!(r.backend.host_header(), "localhost");
    for bad in ["/api/", "/api/,", ",localhost:4500", "a,b,c"] {
        assert_eq!(parse_sub_proxy(bad).err(), Some(ConfigError::InvalidSubProxy));
    }
}

#[test]
fn default_proxy_address_must_not_be_blank() {
    assert_eq!(parse_default_proxy("").err(), Some(ConfigError::InvalidProxyAddress));
    assert_eq!(parse_default_proxy(" \t\n").err(), Some(ConfigError::InvalidProxyAddress));
    let b = parse_default_proxy("localhost:3002").ok().unwrap();
    assert_eq!(b.addr, "localhost:3002");
    assert_eq!(b.host_header(), "localhost");
    assert!(blank("\u{a0} "));
    assert!(!blank(" x "));
}

#[test]
fn host_header_override_wins() {
    let b = Backend { addr: "127.0.0.1:8080".to_string(), host_header: Some("example.com".to_string()) };
    assert_eq!(b.host_header(), "example.com");
    assert_eq!(host_part("example.com"), "example.com");
    assert_eq!(host_part(":80"), "");
}

#[test]
fn config_errors_have_messages() {
    assert_eq!(
        ConfigError::InvalidExactFile.message(),
        "Invalid `--file` format. Expected `<exact-url>,<file-path>,<content-type>`"
    );
    assert_eq!(ConfigError::InvalidProxyAddress.message(), "Invalid `proxy` address");
}

#[test]
fn rule_set_groups_by_kind_in_order() {
    let rules = vec![
        Rule::SubProxy(parse_sub_proxy("/api/,localhost:4500").ok().unwrap()),
        Rule::ExactFile(parse_exact_file("/,index.html,text/html").ok().unwrap()),
        Rule::DefaultProxy(Backend::new("localhost:9000")),
        Rule::StaticDir(parse_static_dir("/s/,one").ok().unwrap()),
        Rule::StaticDir(parse_static_dir("/s/,two").ok().unwrap()),
    ];
    let set = RuleSet::from_rules(&rules).ok().unwrap();
    assert_eq!(set.exact_files.len(), 1);
    assert_eq!(set.static_dirs.len(), 2);
    assert_eq!(set.static_dirs[0].base_dir, "one");
    assert_eq!(set.static_dirs[1].base_dir, "two");
    assert_eq!(set.sub_proxies.len(), 1);
    assert_eq!(set.default_proxy.addr, "localhost:9000");
}

#[test]
fn rule_set_needs_exactly_one_default() {
    let none = vec![Rule::ExactFile(parse_exact_file("/,index.html,text/html").ok().unwrap())];
    assert_eq!(RuleSet::from_rules(&none).err(), Some(ConfigError::DefaultProxyCount));
    let two = vec![
        Rule::DefaultProxy(Backend::new("a:1")),
        Rule::DefaultProxy(Backend::new("b:2")),
    ];
    assert_eq!(RuleSet::from_rules(&two).err(), Some(ConfigError::DefaultProxyCount));
}
