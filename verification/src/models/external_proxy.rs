//! The external proxy through which the engine may send its requests, and
//! the decision whether a request goes through it.

use crate::text::{decimal, decimal_chars, decimal_string, str_eq, string_of};
use crate::utils::{domain_of, extract_domain, is_local_request, local_request};
use vstd::prelude::*;
use vstd::string::StringExecFns;

verus! {

/// The external proxy as it is configured.
#[derive(Debug)]
pub struct ExternalProxy {
    pub always_bypass_localhost: bool,
    pub bypass_domains: BypassDomains,
    pub configurations: Configurations,
    pub proxy_type: String,
    pub enabled: bool,
}

/// The domains whose requests never go through the proxy.
#[derive(Debug)]
pub struct BypassDomains {
    pub string: Vec<String>,
}

/// The proxies, one entry for each scheme.
#[derive(Debug)]
pub struct Configurations {
    pub entry: Vec<ProxyEntry>,
}

/// The proxy for one scheme; `string` names the scheme.
#[derive(Debug)]
pub struct ProxyEntry {
    pub mutable_external_proxy_configuration: MutableExternalProxyConfiguration,
    pub string: String,
}

/// A setting that is written as a text or as a number.
#[derive(Debug)]
pub enum StringOrNumber {
    String(String),
    Number(i64),
}

/// Where a proxy is found and how it is logged in to.
#[derive(Debug)]
pub struct MutableExternalProxyConfiguration {
    pub domain: String,
    pub encrypted_password: String,
    pub host: String,
    pub port: u16,
    pub requires_authentication: bool,
    pub username: String,
}

impl Clone for MutableExternalProxyConfiguration {
    fn clone(&self) -> (r: Self)
        ensures
            r == *self,
    {
        MutableExternalProxyConfiguration {
            domain: self.domain.clone(),
            encrypted_password: self.encrypted_password.clone(),
            host: self.host.clone(),
            port: self.port,
            requires_authentication: self.requires_authentication,
            username: self.username.clone(),
        }
    }
}

/// Decimal notation of an integer, with a minus sign where it is negative.
pub open spec fn signed_decimal(n: int) -> Seq<char> {
    if n < 0 {
        seq!['-'] + decimal((-n) as nat)
    } else {
        decimal(n as nat)
    }
}

impl StringOrNumber {
    /// The setting as a text.
    pub open spec fn text(self) -> Seq<char> {
        match self {
            StringOrNumber::String(s) => s@,
            StringOrNumber::Number(n) => signed_decimal(n as int),
        }
    }

    /// The setting as a text: the text itself, or the number in decimal
    /// notation.
    pub fn into_text(self) -> (r: String)
        ensures
            r@ == self.text(),
    {
        match self {
            StringOrNumber::String(s) => s,
            StringOrNumber::Number(n) => {
                if n < 0 {
                    let below: i64 = -(n + 1);
                    let magnitude: u64 = below as u64 + 1;
                    let digits = decimal_chars(magnitude);
                    let mut all: Vec<char> = Vec::new();
                    all.push('-');
                    let mut i: usize = 0;
                    while i < digits.len()
                        invariant
                            i <= digits.len(),
                            all@ == seq!['-'] + digits@.take(i as int),
                        decreases digits.len() - i,
                    {
                        all.push(digits[i]);
                        assert(digits@.take(i + 1) =~= digits@.take(i as int).push(digits@[i as int]));
                        i += 1;
                    }
                    assert(digits@.take(digits@.len() as int) =~= digits@);
                    string_of(all.as_slice())
                } else {
                    decimal_string(n as u64)
                }
            },
        }
    }
}

/// The settings of a proxy that has not been set up: no host, the given
/// port, no log-in.
pub open spec fn blank(c: MutableExternalProxyConfiguration, port: u16) -> bool {
    c.domain@.len() == 0 && c.encrypted_password@.len() == 0 && c.host@.len() == 0 && c.port
        == port && !c.requires_authentication && c.username@.len() == 0
}

/// The configuration of a first start: the proxy switched on for the scheme
/// `http`, this machine bypassed, no bypassed domains, and a blank entry
/// for each of `http` (port 8080), `https` (port 443) and `socks` (port
/// 1080).
pub open spec fn initial(p: ExternalProxy) -> bool {
    &&& p.always_bypass_localhost
    &&& p.bypass_domains.string@.len() == 0
    &&& p.proxy_type@ == "http"@
    &&& p.enabled
    &&& p.configurations.entry@.len() == 3
    &&& p.configurations.entry@[0].string@ == "http"@
    &&& blank(p.configurations.entry@[0].mutable_external_proxy_configuration, 8080)
    &&& p.configurations.entry@[1].string@ == "https"@
    &&& blank(p.configurations.entry@[1].mutable_external_proxy_configuration, 443)
    &&& p.configurations.entry@[2].string@ == "socks"@
    &&& blank(p.configurations.entry@[2].mutable_external_proxy_configuration, 1080)
}

fn blank_entry(scheme: &str, port: u16) -> (e: ProxyEntry)
    ensures
        e.string@ == scheme@,
        blank(e.mutable_external_proxy_configuration, port),
{
    ProxyEntry {
        mutable_external_proxy_configuration: MutableExternalProxyConfiguration {
            domain: String::new(),
            encrypted_password: String::new(),
            host: String::new(),
            port,
            requires_authentication: false,
            username: String::new(),
        },
        string: String::from_str(scheme),
    }
}

impl ExternalProxy {
    /// The configuration of a first start.
    pub fn new() -> (p: Self)
        ensures
            initial(p),
    {
        let mut entry: Vec<ProxyEntry> = Vec::new();
        entry.push(blank_entry("http", 8080));
        entry.push(blank_entry("https", 443));
        entry.push(blank_entry("socks", 1080));
        ExternalProxy {
            always_bypass_localhost: true,
            bypass_domains: BypassDomains { string: Vec::new() },
            proxy_type: String::from_str("http"),
            configurations: Configurations { entry },
            enabled: true,
        }
    }
}

/// A proxy that cannot be used: no host, no port, or a log-in that is asked
/// for and lacks the user name or the password.
pub open spec fn incomplete(c: MutableExternalProxyConfiguration) -> bool {
    c.host@.len() == 0 || c.port == 0 || (c.requires_authentication && (c.username@.len() == 0
        || c.encrypted_password@.len() == 0))
}

/// Whether `domain` is one of the first `n` listed domains.
pub open spec fn listed_before(domains: Seq<String>, domain: Seq<char>, n: int) -> bool {
    exists|i: int| 0 <= i < n && i < domains.len() && (#[trigger] domains[i])@ == domain
}

/// Whether one of the first `n` entries is for `scheme`.
pub open spec fn entry_before(entries: Seq<ProxyEntry>, scheme: Seq<char>, n: int) -> bool {
    exists|i: int| 0 <= i < n && i < entries.len() && (#[trigger] entries[i]).string@ == scheme
}

/// Whether one of the first `n` entries is for `scheme` and cannot be used.
pub open spec fn blocked_before(entries: Seq<ProxyEntry>, scheme: Seq<char>, n: int) -> bool {
    exists|i: int|
        0 <= i < n && i < entries.len() && (#[trigger] entries[i]).string@ == scheme
            && incomplete(entries[i].mutable_external_proxy_configuration)
}

/// Whether a request goes through the external proxy: the proxy is switched
/// on, the request does not go to this machine while this machine is
/// bypassed, its domain is not bypassed, and the scheme that is chosen has an
/// entry, and none that cannot be used.
pub open spec fn needs_proxy(config: ExternalProxy, url: Seq<char>) -> bool {
    let entries = config.configurations.entry@;
    &&& config.enabled
    &&& !(config.always_bypass_localhost && local_request(url))
    &&& !listed_before(
        config.bypass_domains.string@,
        domain_of(url),
        config.bypass_domains.string@.len() as int,
    )
    &&& entry_before(entries, config.proxy_type@, entries.len() as int)
    &&& !blocked_before(entries, config.proxy_type@, entries.len() as int)
}

fn is_listed(domains: &Vec<String>, domain: &str) -> (r: bool)
    ensures
        r == listed_before(domains@, domain@, domains@.len() as int),
{
    let mut i: usize = 0;
    while i < domains.len()
        invariant
            i <= domains.len(),
            !listed_before(domains@, domain@, i as int),
        decreases domains.len() - i,
    {
        if str_eq(domains[i].as_str(), domain) {
            return true;
        }
        i += 1;
    }
    false
}

fn is_incomplete(c: &MutableExternalProxyConfiguration) -> (r: bool)
    ensures
        r == incomplete(*c),
{
    c.host.as_str().is_empty() || c.port == 0 || (c.requires_authentication && (
    c.username.as_str().is_empty() || c.encrypted_password.as_str().is_empty()))
}

/// Whether the request for `url` goes through the external proxy.
#[verifier::loop_isolation(false)]
pub fn check_proxy_config(proxy_config: &ExternalProxy, url: String) -> (r: bool)
    ensures
        r == needs_proxy(*proxy_config, url@),
{
    if !proxy_config.enabled {
        return false;
    }
    if proxy_config.always_bypass_localhost && is_local_request(url.as_str()) {
        return false;
    }
    if proxy_config.bypass_domains.string.len() > 0 {
        let domain = extract_domain(url.as_str());
        if is_listed(&proxy_config.bypass_domains.string, domain.as_str()) {
            return false;
        }
    }
    let entries = &proxy_config.configurations.entry;
    let mut found = false;
    let mut i: usize = 0;
    while i < entries.len()
        invariant
            i <= entries.len(),
            found == entry_before(entries@, proxy_config.proxy_type@, i as int),
            !blocked_before(entries@, proxy_config.proxy_type@, i as int),
        decreases entries.len() - i,
    {
        if str_eq(entries[i].string.as_str(), proxy_config.proxy_type.as_str()) {
            if is_incomplete(&entries[i].mutable_external_proxy_configuration) {
                assert(blocked_before(
                    entries@,
                    proxy_config.proxy_type@,
                    entries@.len() as int,
                ));
                return false;
            }
            found = true;
        }
        i += 1;
    }
    found
}

/// The first entry at or after `from` that is for `scheme`.
pub open spec fn first_entry(entries: Seq<ProxyEntry>, scheme: Seq<char>, from: int) -> Option<int>
    decreases entries.len() - from,
{
    if from < 0 || from >= entries.len() {
        None
    } else if entries[from].string@ == scheme {
        Some(from)
    } else {
        first_entry(entries, scheme, from + 1)
    }
}

/// The proxy that requests are sent through.
#[derive(Debug)]
pub struct ProxyTarget {
    /// `http://`, the host, a colon and the port.
    pub uri: String,
    pub requires_authentication: bool,
    pub username: String,
    pub encrypted_password: String,
}

/// The address of a proxy.
pub open spec fn proxy_uri(c: MutableExternalProxyConfiguration) -> Seq<char> {
    "http://"@ + c.host@ + ":"@ + decimal(c.port as nat)
}

/// The proxy of the scheme that is chosen: the first entry for it; nothing
/// where no entry is for it.
#[verifier::loop_isolation(false)]
pub fn proxy_target(proxy_config: &ExternalProxy) -> (r: Option<ProxyTarget>)
    ensures
        match first_entry(proxy_config.configurations.entry@, proxy_config.proxy_type@, 0) {
            Some(i) => {
                let c = proxy_config.configurations.entry@[i].mutable_external_proxy_configuration;
                r matches Some(t) && t.uri@ == proxy_uri(c) && t.requires_authentication
                    == c.requires_authentication && t.username@ == c.username@
                    && t.encrypted_password@ == c.encrypted_password@
            },
            None => r is None,
        },
{
    let entries = &proxy_config.configurations.entry;
    let mut i: usize = 0;
    while i < entries.len()
        invariant
            i <= entries.len(),
            first_entry(entries@, proxy_config.proxy_type@, 0) == first_entry(
                entries@,
                proxy_config.proxy_type@,
                i as int,
            ),
        decreases entries.len() - i,
    {
        if str_eq(entries[i].string.as_str(), proxy_config.proxy_type.as_str()) {
            let c = &entries[i].mutable_external_proxy_configuration;
            let mut uri = String::from_str("http://");
            uri.append(c.host.as_str());
            uri.append(":");
            let port = decimal_string(c.port as u64);
            uri.append(port.as_str());
            assert(uri@ =~= proxy_uri(*c));
            return Some(
                ProxyTarget {
                    uri,
                    requires_authentication: c.requires_authentication,
                    username: c.username.clone(),
                    encrypted_password: c.encrypted_password.clone(),
                },
            );
        }
        i += 1;
    }
    None
}

} // verus!
