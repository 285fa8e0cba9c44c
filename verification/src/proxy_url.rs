//! Which proxy outgoing requests go through.

use vstd::prelude::*;

use crate::text::{contains_str, has_text, join2, opt_str_text, opt_text, text_at, trim, trimmed};

verus! {

/// The upstream proxy of the configuration.
#[derive(Debug)]
pub struct UpstreamProxyConfig {
    pub enabled: bool,
    pub url: String,
}

/// The variables that may name a proxy, in the order in which they are asked.
pub fn proxy_env_vars() -> (r: Vec<&'static str>)
    ensures
        r@ == proxy_env_names(),
{
    vec!["HTTPS_PROXY", "https_proxy", "ALL_PROXY", "all_proxy", "HTTP_PROXY", "http_proxy"]
}

/// The variables that may name a proxy, in the order in which they are asked.
pub open spec fn proxy_env_names() -> Seq<&'static str> {
    seq!["HTTPS_PROXY", "https_proxy", "ALL_PROXY", "all_proxy", "HTTP_PROXY", "http_proxy"]
}

/// A proxy address with a scheme: `http` where it names none.
pub open spec fn with_scheme(url: Seq<char>) -> Seq<char> {
    if has_text(url, "://"@) {
        url
    } else {
        "http://"@ + url
    }
}

/// A proxy address with a scheme: `http` where it names none.
pub fn normalize_proxy(url: &str) -> (r: String)
    ensures
        r@ == with_scheme(url@),
{
    if contains_str(url, "://") {
        url.to_string()
    } else {
        join2("http://", url)
    }
}

/// The address that a setting gives, white space around it aside; an empty one
/// gives none.
pub open spec fn usable_address(s: Seq<char>) -> Option<Seq<char>> {
    if trimmed(s).len() > 0 {
        Some(with_scheme(trimmed(s)))
    } else {
        None
    }
}

/// The address of the first variable that gives one.
pub open spec fn first_usable(values: Seq<Option<String>>) -> Option<Seq<char>>
    decreases values.len(),
{
    if values.len() == 0 {
        None
    } else {
        match values[0] {
            Some(v) if usable_address(v@) is Some => usable_address(v@),
            _ => first_usable(values.drop_first()),
        }
    }
}

/// The configured proxy where it is on and gives an address, else the first
/// variable that gives one.
pub open spec fn proxy_choice(
    config: Option<&UpstreamProxyConfig>,
    env_values: Seq<Option<String>>,
) -> Option<Seq<char>> {
    match config {
        Some(c) if c.enabled && usable_address(c.url@) is Some => usable_address(c.url@),
        _ => first_usable(env_values),
    }
}

/// The address that a setting gives.
fn address_of(s: &str) -> (r: Option<String>)
    ensures
        opt_text(r) == usable_address(s@),
{
    let t = trim(s);
    if t.is_empty() {
        None
    } else {
        Some(normalize_proxy(t))
    }
}

/// The proxy for update requests. `config` is the configured upstream proxy, if
/// the configuration could be loaded; `env_values` are the values of
/// [`proxy_env_vars`], in that order.
pub fn get_upstream_proxy_url(
    config: Option<&UpstreamProxyConfig>,
    env_values: &Vec<Option<String>>,
) -> (r: Option<String>)
    ensures
        opt_text(r) == proxy_choice(config, env_values@),
{
    if let Some(c) = config {
        if c.enabled {
            let address = address_of(c.url.as_str());
            if address.is_some() {
                return address;
            }
        }
    }
    let mut i: usize = 0;
    assert(env_values@.skip(0) =~= env_values@);
    while i < env_values.len()
        invariant
            i <= env_values.len(),
            proxy_choice(config, env_values@) == first_usable(env_values@.skip(i as int)),
        decreases env_values.len() - i,
    {
        assert(env_values@.skip(i as int).drop_first() =~= env_values@.skip(i + 1));
        assert(env_values@.skip(i as int)[0] == env_values@[i as int]);
        if let Some(v) = &env_values[i] {
            let address = address_of(v.as_str());
            if address.is_some() {
                return address;
            }
        }
        i = i + 1;
    }
    None
}

/// The proxy address that the configuration turns on, as it is written there.
pub open spec fn enabled_proxy(config: Option<&UpstreamProxyConfig>) -> Option<Seq<char>> {
    match config {
        Some(c) if c.enabled && c.url@.len() > 0 => Some(c.url@),
        _ => None,
    }
}

/// The proxy address that the configuration turns on, as it is written there.
pub fn configured_proxy<'a>(config: Option<&'a UpstreamProxyConfig>) -> (r: Option<&'a str>)
    ensures
        opt_str_text(r) == enabled_proxy(config),
{
    match config {
        Some(c) => if c.enabled && !c.url.as_str().is_empty() {
            Some(c.url.as_str())
        } else {
            None
        },
        None => None,
    }
}

// ----- Laws -----

/// Every address that is used names a scheme, and naming it again changes nothing.
pub proof fn law_scheme_is_named(url: Seq<char>)
    ensures
        has_text(with_scheme(url), "://"@),
        with_scheme(with_scheme(url)) == with_scheme(url),
{
    reveal_strlit("://");
    reveal_strlit("http://");
    if !has_text(url, "://"@) {
        assert(with_scheme(url).subrange(4, 7) =~= "://"@);
        assert(text_at(with_scheme(url), "://"@, 4));
    }
}

proof fn lemma_first_usable_has_scheme(values: Seq<Option<String>>)
    ensures
        first_usable(values) matches Some(url) ==> has_text(url, "://"@),
    decreases values.len(),
{
    if values.len() > 0 {
        match values[0] {
            Some(v) => law_scheme_is_named(trimmed(v@)),
            None => {},
        }
        lemma_first_usable_has_scheme(values.drop_first());
    }
}

/// The proxy that is chosen always names a scheme.
pub proof fn law_chosen_proxy_has_scheme(
    config: Option<&UpstreamProxyConfig>,
    env_values: Seq<Option<String>>,
)
    ensures
        proxy_choice(config, env_values) matches Some(url) ==> has_text(url, "://"@),
{
    match config {
        Some(c) => law_scheme_is_named(trimmed(c.url@)),
        None => {},
    }
    lemma_first_usable_has_scheme(env_values);
}

/// A configured proxy that is on and gives an address goes before every variable.
pub proof fn law_configuration_comes_first(
    config: Option<&UpstreamProxyConfig>,
    values: Seq<Option<String>>,
    others: Seq<Option<String>>,
)
    requires
        config is Some,
        config->0.enabled,
        trimmed(config->0.url@).len() > 0,
    ensures
        proxy_choice(config, values) == proxy_choice(config, others),
        proxy_choice(config, values) is Some,
{
}

proof fn lemma_first_usable(values: Seq<Option<String>>, i: int)
    requires
        0 <= i <= values.len(),
        forall|j: int|
            0 <= j < i ==> ((#[trigger] values[j]) matches Some(v) ==> trimmed(v@).len() == 0),
        i < values.len() ==> (values[i] matches Some(v) && trimmed(v@).len() > 0),
    ensures
        i < values.len() ==> first_usable(values) == Some(with_scheme(trimmed((values[i]->0)@))),
        i == values.len() ==> first_usable(values) is None,
    decreases values.len(),
{
    if i > 0 {
        let rest = values.drop_first();
        assert(values[0] matches Some(v) ==> trimmed(v@).len() == 0);
        assert forall|j: int| 0 <= j < i - 1 implies ((#[trigger] rest[j]) matches Some(v)
            ==> trimmed(v@).len() == 0) by {
            assert(rest[j] == values[j + 1]);
        }
        if i < values.len() {
            assert(rest[i - 1] == values[i]);
        }
        lemma_first_usable(rest, i - 1);
    }
}

/// A proxy that the configuration turns on is the one that is used, wherever its address
/// is not blank, whatever the variables say: without the white space around it, with
/// `http` where it names no scheme.
pub proof fn law_configured_proxy_is_used(
    config: &UpstreamProxyConfig,
    env_values: &Vec<Option<String>>,
    r: Option<String>,
)
    requires
        call_ensures(get_upstream_proxy_url, (Some(config), env_values), r),
        config.enabled,
        trimmed(config.url@).len() > 0,
    ensures
        r is Some,
        has_text(trimmed(config.url@), "://"@) ==> (r->0)@ == trimmed(config.url@),
        !has_text(trimmed(config.url@), "://"@) ==> (r->0)@ == "http://"@ + trimmed(config.url@),
{
}

/// Where the configuration gives no address, the first of the variables that is neither
/// unset nor blank gives it, from the very first on; where all are, there is no proxy.
/// `i` is its place, or the number of variables.
pub proof fn law_first_variable_is_used(
    config: Option<&UpstreamProxyConfig>,
    env_values: &Vec<Option<String>>,
    i: int,
    r: Option<String>,
)
    requires
        call_ensures(get_upstream_proxy_url, (config, env_values), r),
        config matches Some(c) ==> !c.enabled || trimmed(c.url@).len() == 0,
        0 <= i <= env_values.len(),
        forall|j: int|
            0 <= j < i ==> ((#[trigger] env_values@[j]) matches Some(v) ==> trimmed(v@).len()
                == 0),
        i < env_values.len() ==> (env_values@[i] matches Some(v) && trimmed(v@).len() > 0),
    ensures
        r is Some <==> i < env_values.len(),
        r is Some && has_text(trimmed((env_values@[i]->0)@), "://"@) ==> (r->0)@ == trimmed(
            (env_values@[i]->0)@,
        ),
        r is Some && !has_text(trimmed((env_values@[i]->0)@), "://"@) ==> (r->0)@ == "http://"@
            + trimmed((env_values@[i]->0)@),
{
    lemma_first_usable(env_values@, i);
}

/// The variables that may name a proxy: that of HTTPS, that of all requests and that of
/// HTTP, each in capitals and then in small letters.
pub proof fn law_variables_of_proxies(r: Vec<&'static str>)
    requires
        call_ensures(proxy_env_vars, (), r),
    ensures
        r.len() == 6,
        r@[0]@ == "HTTPS_PROXY"@ && r@[1]@ == "https_proxy"@,
        r@[2]@ == "ALL_PROXY"@ && r@[3]@ == "all_proxy"@,
        r@[4]@ == "HTTP_PROXY"@ && r@[5]@ == "http_proxy"@,
{
}

/// An address keeps the scheme that it names, and gets `http` where it names none.
pub proof fn law_addresses_get_a_scheme(url: &str, r: String)
    requires
        call_ensures(normalize_proxy, (url,), r),
    ensures
        has_text(url@, "://"@) ==> r@ == url@,
        !has_text(url@, "://"@) ==> r@ == "http://"@ + url@,
        r@ == with_scheme(url@),
{
}

/// The proxy of the configuration is the address as it is written, exactly where it is
/// turned on and not empty.
pub proof fn law_proxy_of_the_configuration(config: Option<&UpstreamProxyConfig>, r: Option<&str>)
    requires
        call_ensures(configured_proxy, (config,), r),
    ensures
        r is Some <==> (config matches Some(c) && c.enabled && c.url@.len() > 0),
        r is Some ==> (r->0)@ == (config->0).url@,
{
}

} // verus!
