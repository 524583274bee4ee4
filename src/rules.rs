//! Routing rules, the rule set they form, and how each is read from its
//! command-line form.
use vstd::prelude::*;
use crate::text::{split_at_char, split_on, views};

verus! {

/// Serve one file for one exact URL.
pub struct ExactFileRule {
    pub url: String,
    pub file_path: String,
    pub content_type: String,
}

/// Serve files from a directory for URLs under a prefix.
pub struct StaticDirRule {
    pub url_prefix: String,
    pub base_dir: String,
}

/// A backend to forward to, with the `Host` header to send it, if it is
/// not the host part of the address.
pub struct Backend {
    pub addr: String,
    pub host_header: Option<String>,
}

/// Forward URLs under a prefix to a backend of their own.
pub struct SubProxyRule {
    pub url_prefix: String,
    pub backend: Backend,
}

/// One configured rule, of any kind.
pub enum Rule {
    ExactFile(ExactFileRule),
    StaticDir(StaticDirRule),
    SubProxy(SubProxyRule),
    DefaultProxy(Backend),
}

/// The rules grouped by kind, each group in configured order, with the one
/// default backend.
pub struct RuleSet {
    pub exact_files: Vec<ExactFileRule>,
    pub static_dirs: Vec<StaticDirRule>,
    pub sub_proxies: Vec<SubProxyRule>,
    pub default_proxy: Backend,
}

/// Why a piece of configuration was refused.
#[derive(Clone, Copy, Debug, PartialEq, Eq, Structural)]
pub enum ConfigError {
    /// An exact-file rule not of the form `<url>,<file-path>,<content-type>`.
    InvalidExactFile,
    /// A static-directory rule not of the form `<url-prefix>,<directory>`.
    InvalidStaticDir,
    /// A sub-proxy rule not of the form `<url-prefix>,<address>`.
    InvalidSubProxy,
    /// A blank default backend address.
    InvalidProxyAddress,
    /// A rule list without exactly one default backend.
    DefaultProxyCount,
}

impl ConfigError {
    /// A message for the person who wrote the configuration.
    pub fn message(&self) -> (r: &'static str)
        ensures
            r@ == match *self {
                ConfigError::InvalidExactFile =>
                    "Invalid `--file` format. Expected `<exact-url>,<file-path>,<content-type>`"@,
                ConfigError::InvalidStaticDir =>
                    "Invalid `--static` format. Expected `<url-prefix>,<path-root>`"@,
                ConfigError::InvalidSubProxy =>
                    "Invalid `--sub-proxy` format. Expected `<url-prefix>,<proxy-addr>`"@,
                ConfigError::InvalidProxyAddress => "Invalid `proxy` address"@,
                ConfigError::DefaultProxyCount => "Expected exactly one default proxy"@,
            },
    {
        match self {
            ConfigError::InvalidExactFile =>
                "Invalid `--file` format. Expected `<exact-url>,<file-path>,<content-type>`",
            ConfigError::InvalidStaticDir =>
                "Invalid `--static` format. Expected `<url-prefix>,<path-root>`",
            ConfigError::InvalidSubProxy =>
                "Invalid `--sub-proxy` format. Expected `<url-prefix>,<proxy-addr>`",
            ConfigError::InvalidProxyAddress => "Invalid `proxy` address",
            ConfigError::DefaultProxyCount => "Expected exactly one default proxy",
        }
    }
}

/// Whether the character has the Unicode `White_Space` property.
pub uninterp spec fn is_white_space(c: char) -> bool;

/// Relies on char::is_whitespace: whether `c` has the Unicode
/// `White_Space` property.
#[verifier::external_body]
fn char_is_whitespace(c: char) -> (r: bool)
    ensures
        r == is_white_space(c),
{
    c.is_whitespace()
}

/// Whether `s` holds nothing but white space, so that trimming it leaves
/// nothing.
pub open spec fn is_blank(s: Seq<char>) -> bool {
    forall|i: int| 0 <= i < s.len() ==> is_white_space(#[trigger] s[i])
}

/// Whether `s` is blank.
pub fn blank(s: &str) -> (r: bool)
    ensures
        r == is_blank(s@),
{
    let n = s.unicode_len();
    let mut i: usize = 0;
    while i < n
        invariant
            n == s@.len(),
            i <= n,
            forall|j: int| 0 <= j < i ==> is_white_space(#[trigger] s@[j]),
        decreases n - i,
    {
        if !char_is_whitespace(s.get_char(i)) {
            return false;
        }
        i += 1;
    }
    true
}

/// The host part of a `host:port` address: everything before the first
/// `:`.
pub open spec fn host_of(addr: Seq<char>) -> Seq<char> {
    split_on(addr, ':')[0]
}

/// The host part of `addr`.
pub fn host_part(addr: &str) -> (r: String)
    ensures
        r@ == host_of(addr@),
{
    let parts = split_at_char(addr, ':');
    assert(views(parts@)[0] == parts@[0]@);
    parts[0].clone()
}

/// The `Host` header sent to a backend: its override where one is set,
/// else the host part of its address.
pub open spec fn host_header_of(b: Backend) -> Seq<char> {
    match b.host_header {
        Some(h) => h@,
        None => host_of(b.addr@),
    }
}

impl Backend {
    /// A backend reached at `addr`, with the `Host` header taken from it.
    pub fn new(addr: &str) -> (r: Backend)
        ensures
            r.addr@ == addr@,
            r.host_header is None,
    {
        Backend { addr: String::from_str(addr), host_header: None }
    }

    /// The `Host` header to send with forwarded requests.
    pub fn host_header(&self) -> (r: String)
        ensures
            r@ == host_header_of(*self),
    {
        match &self.host_header {
            Some(h) => h.clone(),
            None => host_part(self.addr.as_str()),
        }
    }

    /// A copy of this backend.
    pub fn duplicate(&self) -> (r: Backend)
        ensures
            r == *self,
    {
        let host_header = match &self.host_header {
            Some(h) => Some(h.clone()),
            None => None,
        };
        Backend { addr: self.addr.clone(), host_header }
    }
}

/// Whether every piece is non-empty.
pub open spec fn all_nonempty(parts: Seq<Seq<char>>) -> bool {
    forall|i: int| 0 <= i < parts.len() ==> #[trigger] parts[i].len() > 0
}

/// Whether `s` has the form `<url>,<file-path>,<content-type>` with no part
/// empty.
pub open spec fn exact_file_form(s: Seq<char>) -> bool {
    split_on(s, ',').len() == 3 && all_nonempty(split_on(s, ','))
}

/// Whether `s` has the form `<a>,<b>` with neither part empty.
pub open spec fn pair_form(s: Seq<char>) -> bool {
    split_on(s, ',').len() == 2 && all_nonempty(split_on(s, ','))
}

/// Reads an exact-file rule written `<url>,<file-path>,<content-type>`.
pub fn parse_exact_file(s: &str) -> (r: Result<ExactFileRule, ConfigError>)
    ensures
        r is Ok <==> exact_file_form(s@),
        r matches Err(e) ==> e == ConfigError::InvalidExactFile,
        r matches Ok(rule) ==> rule.url@ == split_on(s@, ',')[0] && rule.file_path@ == split_on(
            s@,
            ',',
        )[1] && rule.content_type@ == split_on(s@, ',')[2],
{
    let parts = split_at_char(s, ',');
    if parts.len() != 3 || parts[0].unicode_len() == 0 || parts[1].unicode_len() == 0
        || parts[2].unicode_len() == 0 {
        proof {
            if parts.len() == 3 {
                assert(views(parts@)[0] == parts@[0]@);
                assert(views(parts@)[1] == parts@[1]@);
                assert(views(parts@)[2] == parts@[2]@);
            }
        }
        return Err(ConfigError::InvalidExactFile);
    }
    proof {
        assert forall|i: int| 0 <= i < 3 implies #[trigger] split_on(s@, ',')[i].len() > 0 by {
            assert(views(parts@)[i] == parts@[i]@);
        }
    }
    Ok(ExactFileRule {
        url: parts[0].clone(),
        file_path: parts[1].clone(),
        content_type: parts[2].clone(),
    })
}

/// Reads a static-directory rule written `<url-prefix>,<directory>`.
pub fn parse_static_dir(s: &str) -> (r: Result<StaticDirRule, ConfigError>)
    ensures
        r is Ok <==> pair_form(s@),
        r matches Err(e) ==> e == ConfigError::InvalidStaticDir,
        r matches Ok(rule) ==> rule.url_prefix@ == split_on(s@, ',')[0] && rule.base_dir@
            == split_on(s@, ',')[1],
{
    let parts = split_at_char(s, ',');
    if parts.len() != 2 || parts[0].unicode_len() == 0 || parts[1].unicode_len() == 0 {
        proof {
            if parts.len() == 2 {
                assert(views(parts@)[0] == parts@[0]@);
                assert(views(parts@)[1] == parts@[1]@);
            }
        }
        return Err(ConfigError::InvalidStaticDir);
    }
    proof {
        assert forall|i: int| 0 <= i < 2 implies #[trigger] split_on(s@, ',')[i].len() > 0 by {
            assert(views(parts@)[i] == parts@[i]@);
        }
    }
    Ok(StaticDirRule { url_prefix: parts[0].clone(), base_dir: parts[1].clone() })
}

/// Reads a sub-proxy rule written `<url-prefix>,<address>`; the backend's
/// `Host` header is the host part of the address.
pub fn parse_sub_proxy(s: &str) -> (r: Result<SubProxyRule, ConfigError>)
    ensures
        r is Ok <==> pair_form(s@),
        r matches Err(e) ==> e == ConfigError::InvalidSubProxy,
        r matches Ok(rule) ==> rule.url_prefix@ == split_on(s@, ',')[0] && rule.backend.addr@
            == split_on(s@, ',')[1] && rule.backend.host_header is None,
{
    let parts = split_at_char(s, ',');
    if parts.len() != 2 || parts[0].unicode_len() == 0 || parts[1].unicode_len() == 0 {
        proof {
            if parts.len() == 2 {
                assert(views(parts@)[0] == parts@[0]@);
                assert(views(parts@)[1] == parts@[1]@);
            }
        }
        return Err(ConfigError::InvalidSubProxy);
    }
    proof {
        assert forall|i: int| 0 <= i < 2 implies #[trigger] split_on(s@, ',')[i].len() > 0 by {
            assert(views(parts@)[i] == parts@[i]@);
        }
    }
    Ok(SubProxyRule { url_prefix: parts[0].clone(), backend: Backend::new(parts[1].as_str()) })
}

/// Reads the default backend address; a blank one is refused.
pub fn parse_default_proxy(addr: &str) -> (r: Result<Backend, ConfigError>)
    ensures
        r is Ok <==> !is_blank(addr@),
        r matches Err(e) ==> e == ConfigError::InvalidProxyAddress,
        r matches Ok(b) ==> b.addr@ == addr@ && b.host_header is None,
{
    if blank(addr) {
        Err(ConfigError::InvalidProxyAddress)
    } else {
        Ok(Backend::new(addr))
    }
}

impl ExactFileRule {
    /// A copy of this rule.
    pub fn duplicate(&self) -> (r: ExactFileRule)
        ensures
            r == *self,
    {
        ExactFileRule {
            url: self.url.clone(),
            file_path: self.file_path.clone(),
            content_type: self.content_type.clone(),
        }
    }
}

impl StaticDirRule {
    /// A copy of this rule.
    pub fn duplicate(&self) -> (r: StaticDirRule)
        ensures
            r == *self,
    {
        StaticDirRule { url_prefix: self.url_prefix.clone(), base_dir: self.base_dir.clone() }
    }
}

impl SubProxyRule {
    /// A copy of this rule.
    pub fn duplicate(&self) -> (r: SubProxyRule)
        ensures
            r == *self,
    {
        SubProxyRule { url_prefix: self.url_prefix.clone(), backend: self.backend.duplicate() }
    }
}

/// The exact-file rules among `rules`, in order.
pub open spec fn exact_rules_of(rules: Seq<Rule>) -> Seq<ExactFileRule>
    decreases rules.len(),
{
    if rules.len() == 0 {
        Seq::empty()
    } else {
        let rest = exact_rules_of(rules.drop_last());
        match rules.last() {
            Rule::ExactFile(r) => rest.push(r),
            _ => rest,
        }
    }
}

/// The static-directory rules among `rules`, in order.
pub open spec fn static_rules_of(rules: Seq<Rule>) -> Seq<StaticDirRule>
    decreases rules.len(),
{
    if rules.len() == 0 {
        Seq::empty()
    } else {
        let rest = static_rules_of(rules.drop_last());
        match rules.last() {
            Rule::StaticDir(r) => rest.push(r),
            _ => rest,
        }
    }
}

/// The sub-proxy rules among `rules`, in order.
pub open spec fn sub_proxy_rules_of(rules: Seq<Rule>) -> Seq<SubProxyRule>
    decreases rules.len(),
{
    if rules.len() == 0 {
        Seq::empty()
    } else {
        let rest = sub_proxy_rules_of(rules.drop_last());
        match rules.last() {
            Rule::SubProxy(r) => rest.push(r),
            _ => rest,
        }
    }
}

/// The default backends among `rules`, in order.
pub open spec fn default_backends_of(rules: Seq<Rule>) -> Seq<Backend>
    decreases rules.len(),
{
    if rules.len() == 0 {
        Seq::empty()
    } else {
        let rest = default_backends_of(rules.drop_last());
        match rules.last() {
            Rule::DefaultProxy(b) => rest.push(b),
            _ => rest,
        }
    }
}

impl RuleSet {
    /// Groups `rules` by kind, keeping the configured order within each
    /// group; refused unless exactly one default backend is among them.
    pub fn from_rules(rules: &Vec<Rule>) -> (r: Result<RuleSet, ConfigError>)
        ensures
            r is Ok <==> default_backends_of(rules@).len() == 1,
            r matches Err(e) ==> e == ConfigError::DefaultProxyCount,
            r matches Ok(set) ==> {
                &&& set.exact_files@ == exact_rules_of(rules@)
                &&& set.static_dirs@ == static_rules_of(rules@)
                &&& set.sub_proxies@ == sub_proxy_rules_of(rules@)
                &&& set.default_proxy == default_backends_of(rules@)[0]
            },
    {
        let mut exact_files: Vec<ExactFileRule> = Vec::new();
        let mut static_dirs: Vec<StaticDirRule> = Vec::new();
        let mut sub_proxies: Vec<SubProxyRule> = Vec::new();
        let mut defaults: Vec<Backend> = Vec::new();
        let mut i: usize = 0;
        assert(rules@.take(0) =~= Seq::<Rule>::empty());
        while i < rules.len()
            invariant
                i <= rules@.len(),
                exact_files@ == exact_rules_of(rules@.take(i as int)),
                static_dirs@ == static_rules_of(rules@.take(i as int)),
                sub_proxies@ == sub_proxy_rules_of(rules@.take(i as int)),
                defaults@ == default_backends_of(rules@.take(i as int)),
            decreases rules@.len() - i,
        {
            assert(rules@.take(i + 1).drop_last() =~= rules@.take(i as int));
            match &rules[i] {
                Rule::ExactFile(x) => exact_files.push(x.duplicate()),
                Rule::StaticDir(x) => static_dirs.push(x.duplicate()),
                Rule::SubProxy(x) => sub_proxies.push(x.duplicate()),
                Rule::DefaultProxy(x) => defaults.push(x.duplicate()),
            }
            i += 1;
        }
        assert(rules@.take(rules@.len() as int) =~= rules@);
        if defaults.len() != 1 {
            return Err(ConfigError::DefaultProxyCount);
        }
        let default_proxy = defaults[0].duplicate();
        Ok(RuleSet { exact_files, static_dirs, sub_proxies, default_proxy })
    }
}

} // verus!
