//! The client of the upstream: which HTTP client a request goes through, how it
//! shows itself, and how calls start.
//!
//! The HTTP clients themselves are held by the caller; here each is a number.

use dashmap::DashMap;
use reqwest::header::HeaderMap;
use serde_json::Value;
use vstd::prelude::*;

use crate::auxiliary::{AuxiliaryCall, AuxiliaryModel};
use crate::fallback::{
    first_request, law_calls_end, method_address, method_url, next_step, requests_made,
    CallModel, ReplyModel, StepModel, UpstreamCall, ENDPOINTS,
};
use crate::headers::{
    build_headers, given_headers, header_contents, header_value_ok, is_content_method,
    law_content_goes_without_project, law_few_headers_fit, request_headers, Egress,
    MAX_HEADER_NAMES, PROJECT_HEADER,
};
use crate::json::{body_bytes, body_project, json_bytes, project_of, text_members};
use crate::status::{retryable_code, HttpStatus};
use crate::text::{join2, opt_str_text, opt_text};

verus! {

// ----- The cache -----

/// `dashmap::DashMap`, the cache of the clients that go through a proxy.
#[verifier::external_type_specification]
#[verifier::external_body]
#[verifier::reject_recursive_types(K)]
#[verifier::reject_recursive_types(V)]
#[verifier::reject_recursive_types(S)]
pub struct ExDashMap<K, V, S>(DashMap<K, V, S>);

/// The entries of a cache.
pub uninterp spec fn cache_entries(m: DashMap<String, u64>) -> Map<Seq<char>, u64>;

/// No entries.
pub open spec fn no_entries() -> Map<Seq<char>, u64> {
    Map::empty()
}

/// Calls `dashmap::DashMap::new`. Claimed of it: there are no entries.
#[verifier::external_body]
fn cache_new() -> (r: DashMap<String, u64>)
    ensures
        cache_entries(r) == no_entries(),
{
    DashMap::new()
}

/// Calls `dashmap::DashMap::get`. Claimed of it: the value of the key, if it has one.
#[verifier::external_body]
fn cache_get(m: &DashMap<String, u64>, key: &str) -> (r: Option<u64>)
    ensures
        r == if cache_entries(*m).contains_key(key@) {
            Some(cache_entries(*m)[key@])
        } else {
            None
        },
{
    m.get(key).map(|entry| *entry.value())
}

/// Calls `dashmap::DashMap::insert`. Claimed of it: the key has this value, and
/// the other keys keep theirs.
#[verifier::external_body]
fn cache_insert(m: &mut DashMap<String, u64>, key: String, value: u64)
    ensures
        cache_entries(*final(m)) == cache_entries(*old(m)).insert(key@, value),
{
    m.insert(key, value);
}

/// Calls `dashmap::DashMap::clear`. Claimed of it: there are no entries left.
#[verifier::external_body]
fn cache_clear(m: &mut DashMap<String, u64>)
    ensures
        cache_entries(*final(m)) == no_entries(),
{
    m.clear();
}

/// Calls `dashmap::DashMap::len`. Claimed of it: the number of entries.
#[verifier::external_body]
fn cache_len(m: &DashMap<String, u64>) -> (r: usize)
    ensures
        r == cache_entries(*m).dom().len(),
{
    m.len()
}

// ----- Building clients -----

/// How long it may take to connect, in seconds.
pub const CONNECT_TIMEOUT_SECS: u64 = 20;

/// How many idle connections are kept for a host.
pub const POOL_MAX_IDLE_PER_HOST: usize = 20;

/// How long an idle connection is kept, in seconds.
pub const POOL_IDLE_TIMEOUT_SECS: u64 = 90;

/// How often a connection is probed, in seconds.
pub const TCP_KEEPALIVE_SECS: u64 = 60;

/// How long a request may take, in seconds.
pub const REQUEST_TIMEOUT_SECS: u64 = 600;

/// What came of building the default client so far.
#[derive(Debug, Clone, Copy, PartialEq, Eq, Structural)]
pub enum DefaultBuild {
    NotTried,
    /// Built with the configured proxy, if it could be.
    WithProxy(Option<u64>),
    /// Built without a proxy, if it could be.
    WithoutProxy(Option<u64>),
}

/// What is to be done for the default client.
#[derive(Debug, Clone, Copy, PartialEq, Eq, Structural)]
pub enum DefaultBuildStep {
    BuildWithProxy,
    BuildWithoutProxy,
    Use(u64),
    /// Neither could be built: a new program takes a bare client, a running one
    /// keeps the client that it has.
    GiveUp,
}

/// What is to be done for the default client: the configured proxy first, then none.
pub fn default_build_step(build: DefaultBuild) -> (r: DefaultBuildStep)
    ensures
        r == match build {
            DefaultBuild::NotTried => DefaultBuildStep::BuildWithProxy,
            DefaultBuild::WithProxy(Some(client)) => DefaultBuildStep::Use(client),
            DefaultBuild::WithProxy(None) => DefaultBuildStep::BuildWithoutProxy,
            DefaultBuild::WithoutProxy(Some(client)) => DefaultBuildStep::Use(client),
            DefaultBuild::WithoutProxy(None) => DefaultBuildStep::GiveUp,
        },
{
    match build {
        DefaultBuild::NotTried => DefaultBuildStep::BuildWithProxy,
        DefaultBuild::WithProxy(Some(client)) => DefaultBuildStep::Use(client),
        DefaultBuild::WithProxy(None) => DefaultBuildStep::BuildWithoutProxy,
        DefaultBuild::WithoutProxy(Some(client)) => DefaultBuildStep::Use(client),
        DefaultBuild::WithoutProxy(None) => DefaultBuildStep::GiveUp,
    }
}

// ----- The client -----

/// The client of the upstream.
pub struct UpstreamClient {
    default_client: u64,
    has_pool: bool,
    client_cache: DashMap<String, u64>,
    user_agent_override: Option<String>,
}

/// What an [`UpstreamClient`] holds.
pub struct UpstreamModel {
    /// The client of requests that no proxy of the pool is bound to.
    pub default_client: u64,
    /// There is a pool of proxies.
    pub has_pool: bool,
    /// The clients that go through a proxy of the pool, by the id of the proxy.
    pub cache: Map<Seq<char>, u64>,
    /// The user agent that was set in place of the default one.
    pub user_agent: Option<Seq<char>>,
}

/// What is to be done to get the client of a request.
pub enum ClientAction {
    /// Ask the pool for the proxy of this account.
    AskPool(String),
    /// Build the client of the proxy with this id.
    Build(String),
    /// Take this client.
    Use(u64),
}

/// What is to be done to get the client of a request.
pub enum ClientActionModel {
    AskPool(Seq<char>),
    Build(Seq<char>),
    Use(u64),
}

impl View for ClientAction {
    type V = ClientActionModel;

    open spec fn view(&self) -> ClientActionModel {
        match self {
            ClientAction::AskPool(account) => ClientActionModel::AskPool(account@),
            ClientAction::Build(proxy) => ClientActionModel::Build(proxy@),
            ClientAction::Use(client) => ClientActionModel::Use(*client),
        }
    }
}

/// Where the search for a client starts: with the pool, if there is one and the
/// request belongs to an account.
pub open spec fn client_request(m: UpstreamModel, account: Option<Seq<char>>) -> ClientActionModel {
    match account {
        Some(id) if m.has_pool => ClientActionModel::AskPool(id),
        _ => ClientActionModel::Use(m.default_client),
    }
}

/// What the pool's answer leads to: the client of the proxy, cached or built;
/// the default client where the account has no proxy or the pool failed.
pub open spec fn pool_answer(
    m: UpstreamModel,
    proxy: Result<Option<Seq<char>>, Seq<char>>,
) -> ClientActionModel {
    match proxy {
        Ok(Some(id)) => if m.cache.contains_key(id) {
            ClientActionModel::Use(m.cache[id])
        } else {
            ClientActionModel::Build(id)
        },
        _ => ClientActionModel::Use(m.default_client),
    }
}

/// The pool's answer by its texts.
pub open spec fn pool_reply(proxy: Result<Option<String>, String>) -> Result<
    Option<Seq<char>>,
    Seq<char>,
> {
    match proxy {
        Ok(id) => Ok(opt_text(id)),
        Err(e) => Err(e@),
    }
}

/// The state after a client was built for a proxy: it is kept.
pub open spec fn with_cached(m: UpstreamModel, proxy: Seq<char>, client: u64) -> UpstreamModel {
    UpstreamModel { cache: m.cache.insert(proxy, client), ..m }
}

impl UpstreamClient {
    /// What the client holds.
    pub closed spec fn view(&self) -> UpstreamModel {
        UpstreamModel {
            default_client: self.default_client,
            has_pool: self.has_pool,
            cache: cache_entries(self.client_cache),
            user_agent: opt_text(self.user_agent_override),
        }
    }

    /// A client with nothing cached and the default user agent.
    pub fn new(default_client: u64, has_pool: bool) -> (r: Self)
        ensures
            r@ == (UpstreamModel { default_client, has_pool, cache: no_entries(), user_agent: None }),
    {
        UpstreamClient {
            default_client,
            has_pool,
            client_cache: cache_new(),
            user_agent_override: None,
        }
    }

    /// Takes a rebuilt default client, if it could be built; else keeps the old one.
    pub fn rebuild_default_client(&mut self, rebuilt: Option<u64>)
        ensures
            final(self)@ == (UpstreamModel {
                default_client: match rebuilt {
                    Some(client) => client,
                    None => old(self)@.default_client,
                },
                ..old(self)@
            }),
    {
        if let Some(client) = rebuilt {
            self.default_client = client;
        }
    }

    /// Drops the clients of all proxies, so that each is built anew with the
    /// settings in force. Says how many there were.
    pub fn clear_client_cache(&mut self) -> (size: usize)
        ensures
            final(self)@ == (UpstreamModel { cache: no_entries(), ..old(self)@ }),
            size == old(self)@.cache.dom().len(),
    {
        let size: usize = cache_len(&self.client_cache);
        cache_clear(&mut self.client_cache);
        size
    }

    /// Sets the user agent in place of the default one, or goes back to that.
    pub fn set_user_agent_override(&mut self, ua: Option<String>)
        ensures
            final(self)@ == (UpstreamModel { user_agent: opt_text(ua), ..old(self)@ }),
    {
        self.user_agent_override = ua;
    }

    /// The user agent of requests: the one that was set, as `sanitize` lets it
    /// pass, or else the default.
    pub fn get_user_agent<F: FnOnce(String) -> String>(&self, sanitize: F, default: &str) -> (r:
        String)
        requires
            forall|ua: String| opt_text(Some(ua)) == self@.user_agent ==> #[trigger] call_requires(
                sanitize,
                (ua,),
            ),
        ensures
            match self@.user_agent {
                Some(t) => exists|ua: String| ua@ == t && #[trigger] call_ensures(
                    sanitize,
                    (ua,),
                    r,
                ),
                None => r@ == default@,
            },
    {
        match &self.user_agent_override {
            Some(ua) => {
                let text = ua.clone();
                sanitize(text)
            },
            None => default.to_string(),
        }
    }

    /// Starts the search for the client of a request.
    pub fn get_client(&self, account_id: Option<&str>) -> (r: ClientAction)
        ensures
            r@ == client_request(self@, opt_str_text(account_id)),
    {
        match account_id {
            Some(id) => if self.has_pool {
                ClientAction::AskPool(id.to_string())
            } else {
                ClientAction::Use(self.default_client)
            },
            None => ClientAction::Use(self.default_client),
        }
    }

    /// What the pool's answer leads to: the id of the account's proxy, if it has one.
    pub fn on_pool_reply(&self, proxy: Result<Option<String>, String>) -> (r: ClientAction)
        ensures
            r@ == pool_answer(self@, pool_reply(proxy)),
    {
        match proxy {
            Ok(Some(id)) => match cache_get(&self.client_cache, id.as_str()) {
                Some(client) => ClientAction::Use(client),
                None => ClientAction::Build(id),
            },
            Ok(None) => ClientAction::Use(self.default_client),
            Err(_) => ClientAction::Use(self.default_client),
        }
    }

    /// The client of the request after the client of a proxy was built, if it could be.
    pub fn on_built(&mut self, proxy: String, built: Option<u64>) -> (r: u64)
        ensures
            match built {
                Some(client) => r == client && final(self)@ == with_cached(
                    old(self)@,
                    proxy@,
                    client,
                ),
                None => r == old(self)@.default_client && final(self)@ == old(self)@,
            },
    {
        match built {
            Some(client) => {
                cache_insert(&mut self.client_cache, proxy, client);
                client
            },
            None => self.default_client,
        }
    }
}

// ----- Calls -----

/// The call that a request starts: it stands at the first endpoint, with the
/// headers and the bytes of the body.
pub open spec fn started(
    method: Seq<char>,
    access_token: Seq<char>,
    body: Value,
    query: Option<Seq<char>>,
    extra: Seq<(String, String)>,
    egress: Egress,
) -> CallModel {
    first_request(
        method,
        query,
        json_bytes(body),
        request_headers(method, access_token, egress, project_of(body), extra),
    )
}

impl UpstreamClient {
    /// The address of a method at an endpoint.
    pub fn build_url(base_url: &str, method: &str, query_string: Option<&str>) -> (r: String)
        ensures
            r@ == method_url(base_url@, method@, opt_str_text(query_string)),
    {
        method_address(base_url, method, query_string)
    }

    /// Whether another endpoint may do better than this status.
    pub fn should_try_next_endpoint(status: HttpStatus) -> (r: bool)
        ensures
            r == retryable_code(status@),
    {
        status.is_retryable()
    }

    /// Starts a call with no headers passed through.
    pub fn call_v1_internal(
        method: &str,
        access_token: &str,
        body: &Value,
        query_string: Option<&str>,
        egress: &Egress,
    ) -> (r: Result<UpstreamCall, String>)
        ensures
            r is Ok <==> header_value_ok("Bearer "@ + access_token@),
            r matches Ok(call) ==> call@ == started(
                method@,
                access_token@,
                *body,
                opt_str_text(query_string),
                Seq::empty(),
                *egress,
            ),
            r matches Err(e) ==> e@ == "failed to parse header value"@,
    {
        let none: Vec<(String, String)> = Vec::new();
        assert(none@ =~= Seq::<(String, String)>::empty());
        proof {
            law_few_headers_fit(method@, access_token@, *egress, project_of(*body), none@);
        }
        Self::call_v1_internal_with_headers(
            method,
            access_token,
            body,
            query_string,
            &none,
            egress,
        )
    }

    /// Starts a call. `extra_headers` are passed through in this order. It fails
    /// where the token cannot be sent, and may fail where there are more headers
    /// than [`MAX_HEADER_NAMES`].
    pub fn call_v1_internal_with_headers(
        method: &str,
        access_token: &str,
        body: &Value,
        query_string: Option<&str>,
        extra_headers: &Vec<(String, String)>,
        egress: &Egress,
    ) -> (r: Result<UpstreamCall, String>)
        ensures
            match r {
                Ok(call) => header_value_ok("Bearer "@ + access_token@) && call@ == started(
                    method@,
                    access_token@,
                    *body,
                    opt_str_text(query_string),
                    extra_headers@,
                    *egress,
                ),
                Err(e) => if header_value_ok("Bearer "@ + access_token@) {
                    e@ == "max size reached"@ && given_headers(
                        method@,
                        access_token@,
                        *egress,
                        project_of(*body),
                        extra_headers@,
                    ).dom().len() > MAX_HEADER_NAMES
                } else {
                    e@ == "failed to parse header value"@
                },
            },
    {
        let project = body_project(body);
        let project_text = match &project {
            Some(p) => Some(p.as_str()),
            None => None,
        };
        match build_headers(method, access_token, egress, project_text, extra_headers) {
            Ok(headers) => Ok(
                UpstreamCall::start(method, query_string, body_bytes(body), headers),
            ),
            Err(e) => Err(e),
        }
    }

    /// Starts the call that lists the models. Its body is the empty one of
    /// [`crate::json::empty_body`], cleaned like any other.
    pub fn fetch_available_models(access_token: &str, body: &Value, egress: &Egress) -> (r: Result<
        UpstreamCall,
        String,
    >)
        ensures
            r is Ok <==> header_value_ok("Bearer "@ + access_token@),
            r matches Ok(call) ==> call@ == started(
                "fetchAvailableModels"@,
                access_token@,
                *body,
                None,
                Seq::empty(),
                *egress,
            ),
            r matches Err(e) ==> e@ == "failed to parse header value"@,
    {
        Self::call_v1_internal("fetchAvailableModels", access_token, body, None, egress)
    }

    /// The list of models, or why the answer could not be read.
    pub fn on_models_parsed<V>(parsed: Result<V, String>) -> (r: Result<V, String>)
        ensures
            match parsed {
                Ok(v) => r == Ok::<V, String>(v),
                Err(e) => r matches Err(message) && message@ == "Parse json failed: "@ + e@,
            },
    {
        match parsed {
            Ok(v) => Ok(v),
            Err(e) => Err(join2("Parse json failed: ", e.as_str())),
        }
    }

    /// Starts an auxiliary call, whose requests may take `timeout_secs` each.
    pub fn call_v1_internal_auxiliary(
        method: &str,
        access_token: &str,
        body: &Value,
        timeout_secs: u64,
    ) -> (r: AuxiliaryCall)
        ensures
            r@ == (AuxiliaryModel {
                method: method@,
                access_token: access_token@,
                body: json_bytes(*body),
                timeout_secs,
                at: 0,
            }),
    {
        AuxiliaryCall::start(method, access_token, body_bytes(body), timeout_secs)
    }
}

// ----- Laws -----

/// The client of a proxy is built once: after that, every account that the proxy
/// is bound to gets the same client, until the cache is cleared.
pub proof fn law_proxy_client_is_reused(m: UpstreamModel, proxy: Seq<char>, client: u64)
    ensures
        pool_answer(with_cached(m, proxy, client), Ok(Some(proxy))) == ClientActionModel::Use(
            client,
        ),
{
}

/// Caching the client of one proxy leaves those of all others as they are.
pub proof fn law_proxies_are_apart(
    m: UpstreamModel,
    proxy: Seq<char>,
    client: u64,
    other: Seq<char>,
)
    requires
        other != proxy,
    ensures
        pool_answer(with_cached(m, proxy, client), Ok(Some(other))) == pool_answer(
            m,
            Ok(Some(other)),
        ),
{
}

/// After the cache was cleared, the client of every proxy is built anew.
pub proof fn law_cleared_clients_are_rebuilt(m: UpstreamModel, proxy: Seq<char>)
    ensures
        pool_answer(UpstreamModel { cache: no_entries(), ..m }, Ok(Some(proxy)))
            == ClientActionModel::Build(proxy),
{
}

/// A request goes through the default client wherever no proxy is bound to it:
/// without a pool, without an account, without a proxy of the account, and where
/// the pool fails.
pub proof fn law_default_client_without_proxy(
    m: UpstreamModel,
    account: Option<Seq<char>>,
    error: Seq<char>,
)
    ensures
        !m.has_pool || account is None ==> client_request(m, account) == ClientActionModel::Use(
            m.default_client,
        ),
        pool_answer(m, Ok(None)) == ClientActionModel::Use(m.default_client),
        pool_answer(m, Err(error)) == ClientActionModel::Use(m.default_client),
{
}

/// A call for content makes one round of the endpoints at most: it carries no
/// project header that could be taken off.
pub proof fn law_content_calls_make_one_round(
    method: Seq<char>,
    access_token: Seq<char>,
    body: Value,
    query: Option<Seq<char>>,
    extra: Seq<(String, String)>,
    egress: Egress,
    replies: Seq<ReplyModel>,
)
    requires
        is_content_method(method),
    ensures
        requests_made(
            started(method, access_token, body, query, extra, egress),
            replies,
        ) <= ENDPOINTS,
{
    law_content_goes_without_project(method, access_token, egress, project_of(body), extra);
    law_calls_end(started(method, access_token, body, query, extra, egress), replies);
}

/// Every request of a call carries the user agent of this program: going on to
/// the next request never changes it.
pub proof fn law_calls_keep_the_user_agent(s: CallModel, reply: ReplyModel)
    ensures
        next_step(s, reply) matches StepModel::Send(next) ==> next.headers.contains_key(
            "user-agent"@,
        ) == s.headers.contains_key("user-agent"@) && next.headers["user-agent"@]
            == s.headers["user-agent"@],
{
    reveal_strlit("user-agent");
    reveal_strlit("x-goog-user-project");
    assert("user-agent"@[0] == 'u' && PROJECT_HEADER@[0] == 'x');
}

/// A call starts at the first endpoint, with the method, the query and the bytes of the
/// body that it was given, nothing taken off and nothing failed; its headers are those that
/// are built for it with the project of the body.
pub proof fn law_how_calls_start(
    method: &str,
    access_token: &str,
    body: &Value,
    query: Option<&str>,
    extra: &Vec<(String, String)>,
    egress: &Egress,
    project: Option<&str>,
    r: Result<UpstreamCall, String>,
    map: HeaderMap,
)
    requires
        call_ensures(
            UpstreamClient::call_v1_internal_with_headers,
            (method, access_token, body, query, extra, egress),
            r,
        ),
        opt_str_text(project) == if text_members(*body).contains_key("project"@) {
            Some(text_members(*body)["project"@])
        } else {
            None
        },
        call_ensures(
            build_headers,
            (method, access_token, egress, project, extra),
            Ok::<HeaderMap, String>(map),
        ),
    ensures
        r matches Ok(call) ==> {
            &&& call@.method == method@
            &&& call@.query == opt_str_text(query)
            &&& call@.body == json_bytes(*body)
            &&& call@.headers == header_contents(map)
            &&& call@.at == 0
            &&& !call@.downgraded
            &&& call@.attempts.len() == 0
        },
{
}

/// A call starts wherever the token can be sent, as long as the headers fit; a token that
/// cannot be sent starts none, whatever else is given.
pub proof fn law_which_calls_start(
    method: &str,
    access_token: &str,
    body: &Value,
    query: Option<&str>,
    extra: &Vec<(String, String)>,
    egress: &Egress,
    r: Result<UpstreamCall, String>,
)
    requires
        call_ensures(
            UpstreamClient::call_v1_internal_with_headers,
            (method, access_token, body, query, extra, egress),
            r,
        ),
    ensures
        header_value_ok("Bearer "@ + access_token@) && extra.len() <= 6545 ==> r is Ok,
        !header_value_ok("Bearer "@ + access_token@) ==> (r matches Err(e) && e@
            == "failed to parse header value"@),
{
    if extra.len() <= 6545 {
        law_few_headers_fit(method@, access_token@, *egress, project_of(*body), extra@);
    }
}

/// A call without headers of the caller is one that passes none through; the call that
/// lists the models is one of the method `fetchAvailableModels` without a query.
pub proof fn law_plain_calls(
    method: &str,
    access_token: &str,
    body: &Value,
    query: Option<&str>,
    none: &Vec<(String, String)>,
    egress: &Egress,
    plain: Result<UpstreamCall, String>,
    full: Result<UpstreamCall, String>,
    models: Result<UpstreamCall, String>,
)
    requires
        call_ensures(
            UpstreamClient::call_v1_internal,
            (method, access_token, body, query, egress),
            plain,
        ),
        call_ensures(
            UpstreamClient::call_v1_internal_with_headers,
            (method, access_token, body, query, none, egress),
            full,
        ),
        call_ensures(UpstreamClient::fetch_available_models, (access_token, body, egress), models),
        none.len() == 0,
    ensures
        plain is Ok <==> full is Ok,
        plain is Ok ==> (plain->Ok_0)@ == (full->Ok_0)@,
        plain is Err ==> (plain->Err_0)@ == (full->Err_0)@,
        models is Ok <==> header_value_ok("Bearer "@ + access_token@),
        method@ == "fetchAvailableModels"@ && query is None && models is Ok ==> (models->Ok_0)@
            == (plain->Ok_0)@,
{
    assert(none@ =~= Seq::<(String, String)>::empty());
    law_few_headers_fit(method@, access_token@, *egress, project_of(*body), none@);
}

/// An auxiliary call starts at the first endpoint with all that it was given.
pub proof fn law_how_auxiliary_calls_start(
    method: &str,
    access_token: &str,
    body: &Value,
    timeout_secs: u64,
    r: AuxiliaryCall,
)
    requires
        call_ensures(
            UpstreamClient::call_v1_internal_auxiliary,
            (method, access_token, body, timeout_secs),
            r,
        ),
    ensures
        r@.method == method@,
        r@.access_token == access_token@,
        r@.body == json_bytes(*body),
        r@.timeout_secs == timeout_secs,
        r@.at == 0,
{
}

/// The list of models is what was parsed; where nothing could be, the reason is told.
pub proof fn law_lists_of_models<V>(
    value: V,
    error: String,
    parsed: Result<V, String>,
    unparsed: Result<V, String>,
)
    requires
        call_ensures(UpstreamClient::on_models_parsed::<V>, (Ok::<V, String>(value),), parsed),
        call_ensures(UpstreamClient::on_models_parsed::<V>, (Err::<V, String>(error),), unparsed),
    ensures
        parsed == Ok::<V, String>(value),
        unparsed matches Err(m) && m@ == "Parse json failed: "@ + error@,
{
}

/// Addresses are made of endpoint, method and query, and another endpoint is asked on 404,
/// 408 and 500 to 599 and on nothing else.
pub proof fn law_addresses_and_statuses(
    base: &str,
    method: &str,
    query: Option<&str>,
    status: HttpStatus,
    url: String,
    retry: bool,
)
    requires
        call_ensures(UpstreamClient::build_url, (base, method, query), url),
        call_ensures(UpstreamClient::should_try_next_endpoint, (status,), retry),
    ensures
        query is None ==> url@ == base@ + ":"@ + method@,
        query matches Some(q) ==> url@ == base@ + ":"@ + method@ + "?"@ + q@,
        retry <==> status@ == 404 || status@ == 408 || 500 <= status@ <= 599,
{
}

/// The search for the client of a request asks the pool where there is one and the
/// request belongs to an account, naming that account; any other request takes the
/// default client at once.
pub proof fn law_where_the_search_starts(
    client: &UpstreamClient,
    account: Option<&str>,
    r: ClientAction,
)
    requires
        call_ensures(UpstreamClient::get_client, (client, account), r),
    ensures
        client@.has_pool && account is Some ==> (r matches ClientAction::AskPool(id) && id@
            == (account->0)@),
        !client@.has_pool || account is None ==> (r matches ClientAction::Use(c) && c
            == client@.default_client),
{
}

/// An account with a proxy gets the client that was built for that proxy, or has it built;
/// one without, or of which the pool knows nothing, gets the default client.
pub proof fn law_what_the_pool_leads_to(
    client: &UpstreamClient,
    proxy: Result<Option<String>, String>,
    r: ClientAction,
)
    requires
        call_ensures(UpstreamClient::on_pool_reply, (client, proxy), r),
    ensures
        proxy matches Ok(Some(id)) ==> {
            &&& client@.cache.contains_key(id@) ==> (r matches ClientAction::Use(c) && c
                == client@.cache[id@])
            &&& !client@.cache.contains_key(id@) ==> (r matches ClientAction::Build(b) && b@
                == id@)
        },
        proxy matches Ok(None) ==> (r matches ClientAction::Use(c) && c == client@.default_client),
        proxy is Err ==> (r matches ClientAction::Use(c) && c == client@.default_client),
{
}

/// A client that was built for a proxy is used and kept under that proxy, with all others
/// as they were; where none could be built, the default client is used and nothing is
/// kept.
pub proof fn law_built_clients_are_kept(
    client: &mut UpstreamClient,
    proxy: String,
    built: Option<u64>,
    other: Seq<char>,
    r: u64,
)
    requires
        call_ensures(UpstreamClient::on_built, (client, proxy, built), r),
    ensures
        built matches Some(c) ==> r == c && final(client)@.cache.contains_key(proxy@)
            && final(client)@.cache[proxy@] == c,
        built is None ==> r == old(client)@.default_client && (final(client)@.cache.contains_key(
            proxy@,
        ) == old(client)@.cache.contains_key(proxy@)) && final(client)@.cache[proxy@]
            == old(client)@.cache[proxy@],
        other != proxy@ ==> (final(client)@.cache.contains_key(other)
            == old(client)@.cache.contains_key(other)),
        other != proxy@ ==> final(client)@.cache[other] == old(client)@.cache[other],
        final(client)@.default_client == old(client)@.default_client,
        final(client)@.has_pool == old(client)@.has_pool,
        final(client)@.user_agent == old(client)@.user_agent,
{
}

/// A rebuilt default client takes the place of the old one, and where none could be built
/// the old one stays. Nothing else changes.
pub proof fn law_default_client_is_rebuilt(client: &mut UpstreamClient, rebuilt: Option<u64>)
    requires
        call_ensures(UpstreamClient::rebuild_default_client, (client, rebuilt), ()),
    ensures
        rebuilt matches Some(c) ==> final(client)@.default_client == c,
        rebuilt is None ==> final(client)@.default_client == old(client)@.default_client,
        final(client)@.has_pool == old(client)@.has_pool,
        final(client)@.cache == old(client)@.cache,
        final(client)@.user_agent == old(client)@.user_agent,
{
}

/// Clearing drops the clients of all proxies and tells how many there were. Nothing else
/// changes.
pub proof fn law_clearing_drops_all(client: &mut UpstreamClient, proxy: Seq<char>, size: usize)
    requires
        call_ensures(UpstreamClient::clear_client_cache, (client,), size),
    ensures
        !final(client)@.cache.contains_key(proxy),
        size == old(client)@.cache.dom().len(),
        final(client)@.default_client == old(client)@.default_client,
        final(client)@.has_pool == old(client)@.has_pool,
        final(client)@.user_agent == old(client)@.user_agent,
{
}

/// The user agent that is set is the one that is kept, whole, until another is set or none.
/// Nothing else changes.
pub proof fn law_user_agent_is_set(client: &mut UpstreamClient, ua: Option<String>)
    requires
        call_ensures(UpstreamClient::set_user_agent_override, (client, ua), ()),
    ensures
        ua matches Some(t) ==> final(client)@.user_agent == Some(t@),
        ua is None ==> final(client)@.user_agent is None,
        final(client)@.default_client == old(client)@.default_client,
        final(client)@.has_pool == old(client)@.has_pool,
        final(client)@.cache == old(client)@.cache,
{
}

/// A new client has the default client and the pool that it was given, no clients of
/// proxies, and the default user agent.
pub proof fn law_new_clients(default_client: u64, has_pool: bool, proxy: Seq<char>, r: UpstreamClient)
    requires
        call_ensures(UpstreamClient::new, (default_client, has_pool), r),
    ensures
        r@.default_client == default_client,
        r@.has_pool == has_pool,
        !r@.cache.contains_key(proxy),
        r@.user_agent is None,
{
}

/// The default client is built with the configured proxy, then without one, and what could
/// be built first is used.
pub proof fn law_default_client_is_built(build: DefaultBuild, r: DefaultBuildStep)
    requires
        call_ensures(default_build_step, (build,), r),
    ensures
        build is NotTried ==> r is BuildWithProxy,
        build matches DefaultBuild::WithProxy(Some(c)) ==> r == DefaultBuildStep::Use(c),
        build matches DefaultBuild::WithoutProxy(Some(c)) ==> r == DefaultBuildStep::Use(c),
        build == DefaultBuild::WithProxy(None) ==> r is BuildWithoutProxy,
        build == DefaultBuild::WithoutProxy(None) ==> r is GiveUp,
{
}

/// Without a user agent that was set the default one is sent, as it is; one that was set is
/// handed whole to the sanitizer, and what that gives is sent.
pub proof fn law_user_agent_that_is_sent<F: FnOnce(String) -> String>(
    client: &UpstreamClient,
    sanitize: F,
    default: &str,
    r: String,
)
    requires
        call_ensures(UpstreamClient::get_user_agent::<F>, (client, sanitize, default), r),
    ensures
        client@.user_agent is None ==> r@ == default@,
        client@.user_agent matches Some(t) ==> exists|ua: String|
            ua@ == t && #[trigger] call_ensures(sanitize, (ua,), r),
{
}

/// A request may take ten minutes, and connecting twenty seconds of it; connections are
/// probed every minute, and twenty idle ones are kept for a host, for a minute and a half.
pub proof fn law_limits_of_clients()
    ensures
        REQUEST_TIMEOUT_SECS == 10 * 60,
        CONNECT_TIMEOUT_SECS == 20,
        TCP_KEEPALIVE_SECS == 60,
        POOL_MAX_IDLE_PER_HOST == 20,
        POOL_IDLE_TIMEOUT_SECS == 90,
{
}

} // verus!
