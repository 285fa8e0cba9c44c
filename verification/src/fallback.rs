//! Calls to the upstream, which go from endpoint to endpoint until one answers.

use reqwest::header::HeaderMap;
use vstd::prelude::*;

use crate::headers::{header_contains, header_contents, header_remove, PROJECT_HEADER};
use crate::status::{retryable_code, status_display, success_code, HttpStatus};
use crate::text::{join3, join4, opt_str_text, opt_text, str_eq};

verus! {

// ----- Endpoints -----

/// The endpoint of the editor itself; the first choice.
pub const V1_INTERNAL_BASE_URL_DAILY: &'static str =
    "https://daily-cloudcode-pa.googleapis.com/v1internal";

/// The sandbox; it turns some regions away with a final status 400.
pub const V1_INTERNAL_BASE_URL_SANDBOX: &'static str =
    "https://daily-cloudcode-pa.sandbox.googleapis.com/v1internal";

/// The production endpoint; it soon answers with status 429.
pub const V1_INTERNAL_BASE_URL_PROD: &'static str = "https://cloudcode-pa.googleapis.com/v1internal";

/// How many endpoints there are.
pub const ENDPOINTS: usize = 3;

/// The endpoints in the order in which they are tried.
pub open spec fn endpoint_base(i: int) -> Seq<char> {
    if i == 0 {
        V1_INTERNAL_BASE_URL_DAILY@
    } else if i == 1 {
        V1_INTERNAL_BASE_URL_SANDBOX@
    } else {
        V1_INTERNAL_BASE_URL_PROD@
    }
}

/// The endpoints in the order in which they are tried.
pub fn endpoint(i: usize) -> (r: &'static str)
    requires
        i < ENDPOINTS,
    ensures
        r@ == endpoint_base(i as int),
{
    if i == 0 {
        V1_INTERNAL_BASE_URL_DAILY
    } else if i == 1 {
        V1_INTERNAL_BASE_URL_SANDBOX
    } else {
        V1_INTERNAL_BASE_URL_PROD
    }
}

/// The address of a method at an endpoint.
pub open spec fn method_url(
    base: Seq<char>,
    method: Seq<char>,
    query: Option<Seq<char>>,
) -> Seq<char> {
    match query {
        Some(q) => base + ":"@ + method + "?"@ + q,
        None => base + ":"@ + method,
    }
}

/// The address of a method at an endpoint.
pub fn method_address(base_url: &str, method: &str, query_string: Option<&str>) -> (r: String)
    ensures
        r@ == method_url(base_url@, method@, opt_str_text(query_string)),
{
    match query_string {
        Some(q) => {
            let mut out = join4(base_url, ":", method, "?");
            out.append(q);
            out
        },
        None => join3(base_url, ":", method),
    }
}

// ----- Results -----

/// An endpoint that failed on the way to a result.
#[derive(Debug, Clone)]
pub struct FallbackAttemptLog {
    /// The address that was tried.
    pub endpoint_url: String,
    /// The status of the answer; none where the network failed.
    pub status: Option<u16>,
    /// What went wrong.
    pub error: String,
}

/// What a [`FallbackAttemptLog`] says.
pub struct AttemptModel {
    pub endpoint_url: Seq<char>,
    pub status: Option<u16>,
    pub error: Seq<char>,
}

impl View for FallbackAttemptLog {
    type V = AttemptModel;

    open spec fn view(&self) -> AttemptModel {
        AttemptModel {
            endpoint_url: self.endpoint_url@,
            status: self.status,
            error: self.error@,
        }
    }
}

/// What a list of attempts says.
pub open spec fn attempt_models(attempts: Seq<FallbackAttemptLog>) -> Seq<AttemptModel> {
    attempts.map_values(|a: FallbackAttemptLog| a@)
}

/// The answer to a call, and the endpoints that failed before.
pub struct UpstreamCallResult<R> {
    /// The answer that the call ended with.
    pub response: R,
    /// The endpoints that failed before it; empty on success.
    pub fallback_attempts: Vec<FallbackAttemptLog>,
}

// ----- The course of a call -----

/// What came of a request.
pub enum Reply<R> {
    Response { status: HttpStatus, response: R },
    /// The network failed, with this message.
    Failed(String),
}

/// What counts of a reply.
pub enum ReplyModel {
    Status(u16),
    Failed(Seq<char>),
}

/// What counts of a reply.
pub open spec fn reply_model<R>(reply: Reply<R>) -> ReplyModel {
    match reply {
        Reply::Response { status, response } => ReplyModel::Status(status@),
        Reply::Failed(e) => ReplyModel::Failed(e@),
    }
}

/// Where a call stands: which request is to be sent, and what failed before it.
pub struct CallModel {
    pub method: Seq<char>,
    pub query: Option<Seq<char>>,
    pub body: Seq<u8>,
    pub headers: Map<Seq<char>, Seq<u8>>,
    /// The endpoint that the request goes to.
    pub at: int,
    /// The project header was taken off after a status 403.
    pub downgraded: bool,
    /// The endpoints that failed in this round.
    pub attempts: Seq<AttemptModel>,
}

/// What a reply leads to.
pub enum StepModel {
    /// Another request.
    Send(CallModel),
    /// The response is the result, with these attempts.
    Return(Seq<AttemptModel>),
    /// The call failed, with this message.
    Fail(Seq<char>),
}

/// How a failure of the network is reported.
pub open spec fn network_failure(base: Seq<char>, error: Seq<char>) -> Seq<char> {
    "HTTP request failed at "@ + base + ": "@ + error
}

/// How an answer that another endpoint may better is reported.
pub open spec fn status_failure(base: Seq<char>, code: u16) -> Seq<char> {
    "Upstream "@ + base + " returned "@ + status_display(code)
}

/// The call after its endpoint failed: on to the next one.
pub open spec fn moved_on(s: CallModel, status: Option<u16>, error: Seq<char>) -> CallModel {
    CallModel {
        at: s.at + 1,
        attempts: s.attempts.push(
            AttemptModel {
                endpoint_url: method_url(endpoint_base(s.at), s.method, s.query),
                status,
                error,
            },
        ),
        ..s
    }
}

/// The call from its start again, without the project header.
pub open spec fn without_project(s: CallModel) -> CallModel {
    CallModel {
        headers: s.headers.remove(PROJECT_HEADER@),
        at: 0,
        downgraded: true,
        attempts: Seq::empty(),
        ..s
    }
}

/// What a reply leads to. Success ends the call. A status 403 to a request with
/// a project header starts it again without the header, once. A status that
/// another endpoint may better, and a failure of the network, lead to the next
/// endpoint, if there is one. Everything else ends the call.
pub open spec fn next_step(s: CallModel, reply: ReplyModel) -> StepModel {
    match reply {
        ReplyModel::Status(code) => if success_code(code) {
            StepModel::Return(Seq::empty())
        } else if code == 403 && !s.downgraded && s.headers.contains_key(PROJECT_HEADER@) {
            StepModel::Send(without_project(s))
        } else if s.at + 1 < ENDPOINTS && retryable_code(code) {
            StepModel::Send(moved_on(s, Some(code), status_failure(endpoint_base(s.at), code)))
        } else {
            StepModel::Return(s.attempts)
        },
        ReplyModel::Failed(error) => {
            let message = network_failure(endpoint_base(s.at), error);
            if s.at + 1 < ENDPOINTS {
                StepModel::Send(moved_on(s, None, message))
            } else {
                StepModel::Fail(message)
            }
        },
    }
}

/// A call under way: the request that is to be sent next.
pub struct UpstreamCall {
    method: String,
    query: Option<String>,
    body: Vec<u8>,
    headers: HeaderMap,
    at: usize,
    downgraded: bool,
    attempts: Vec<FallbackAttemptLog>,
}

/// What is to be done after a reply.
pub enum CallStep<R> {
    /// Send the request of this call.
    Send(UpstreamCall),
    /// The call is over.
    Done(Result<UpstreamCallResult<R>, String>),
}

/// Every endpoint before the current one has failed once, in order, with a
/// status that another endpoint may better or without an answer.
pub open spec fn attempts_tell_the_way(s: CallModel) -> bool {
    &&& 0 <= s.at < ENDPOINTS
    &&& s.attempts.len() == s.at
    &&& forall|i: int|
        0 <= i < s.at ==> (#[trigger] s.attempts[i]).endpoint_url == method_url(
            endpoint_base(i),
            s.method,
            s.query,
        ) && (s.attempts[i].status matches Some(code) ==> retryable_code(code))
}

impl UpstreamCall {
    /// Where the call stands.
    pub closed spec fn view(&self) -> CallModel {
        CallModel {
            method: self.method@,
            query: opt_text(self.query),
            body: self.body@,
            headers: header_contents(self.headers),
            at: self.at as int,
            downgraded: self.downgraded,
            attempts: attempt_models(self.attempts@),
        }
    }

    #[verifier::type_invariant]
    spec fn wf(self) -> bool {
        attempts_tell_the_way(self.view())
    }

    /// A call that starts with a request to the first endpoint.
    pub(crate) fn start(
        method: &str,
        query_string: Option<&str>,
        body: Vec<u8>,
        headers: HeaderMap,
    ) -> (r: UpstreamCall)
        ensures
            r@ == first_request(method@, opt_str_text(query_string), body@, header_contents(headers)),
    {
        let query = match query_string {
            Some(q) => Some(q.to_string()),
            None => None,
        };
        let attempts: Vec<FallbackAttemptLog> = Vec::new();
        assert(attempt_models(attempts@) =~= Seq::<AttemptModel>::empty());
        UpstreamCall {
            method: method.to_string(),
            query,
            body,
            headers,
            at: 0,
            downgraded: false,
            attempts,
        }
    }
}

/// Where a call stands at its start.
pub open spec fn first_request(
    method: Seq<char>,
    query: Option<Seq<char>>,
    body: Seq<u8>,
    headers: Map<Seq<char>, Seq<u8>>,
) -> CallModel {
    CallModel {
        method,
        query,
        body,
        headers,
        at: 0,
        downgraded: false,
        attempts: Seq::empty(),
    }
}

impl UpstreamCall {
    /// The address that the request goes to.
    pub fn url(&self) -> (r: String)
        ensures
            r@ == method_url(endpoint_base(self@.at), self@.method, self@.query),
    {
        proof {
            use_type_invariant(self);
        }
        let query = match &self.query {
            Some(q) => Some(q.as_str()),
            None => None,
        };
        method_address(endpoint(self.at), self.method.as_str(), query)
    }

    /// The headers of the request.
    pub fn headers(&self) -> (r: &HeaderMap)
        ensures
            header_contents(*r) == self@.headers,
    {
        &self.headers
    }

    /// The body of the request.
    pub fn body(&self) -> (r: &Vec<u8>)
        ensures
            r@ == self@.body,
    {
        &self.body
    }

    /// Whether the body is sent in chunks. Only streams are: other methods are
    /// turned away without a length.
    pub fn is_chunked(&self) -> (r: bool)
        ensures
            r == (self@.method == "streamGenerateContent"@),
    {
        str_eq(self.method.as_str(), "streamGenerateContent")
    }

    /// The endpoints that failed in this round.
    pub fn attempts(&self) -> (r: &Vec<FallbackAttemptLog>)
        ensures
            attempt_models(r@) == self@.attempts,
    {
        &self.attempts
    }

    /// The call after its endpoint failed: on to the next one.
    fn move_on(self, status: Option<u16>, error: String) -> (r: UpstreamCall)
        requires
            self@.at + 1 < ENDPOINTS,
            status matches Some(code) ==> retryable_code(code),
        ensures
            r@ == moved_on(self@, status, error@),
    {
        proof {
            use_type_invariant(&self);
        }
        let endpoint_url = self.url();
        let UpstreamCall { method, query, body, headers, at, downgraded, attempts } = self;
        let mut attempts = attempts;
        let ghost before = attempts@;
        attempts.push(FallbackAttemptLog { endpoint_url, status, error });
        assert(attempt_models(attempts@) =~= attempt_models(before).push(attempts@.last()@));
        UpstreamCall { method, query, body, headers, at: at + 1, downgraded, attempts }
    }

    /// The call from its start again, without the project header.
    fn restart_without_project(self) -> (r: UpstreamCall)
        ensures
            r@ == without_project(self@),
    {
        let UpstreamCall { method, query, body, headers, at: _, downgraded: _, attempts: _ } = self;
        let mut headers = headers;
        proof {
            lemma_project_header();
        }
        header_remove(&mut headers, PROJECT_HEADER);
        let attempts: Vec<FallbackAttemptLog> = Vec::new();
        assert(attempt_models(attempts@) =~= Seq::<AttemptModel>::empty());
        UpstreamCall { method, query, body, headers, at: 0, downgraded: true, attempts }
    }

    /// What a reply to the request leads to.
    pub fn on_reply<R>(self, reply: Reply<R>) -> (r: CallStep<R>)
        ensures
            match next_step(self@, reply_model(reply)) {
                StepModel::Send(next) => r matches CallStep::Send(call) && call@ == next,
                StepModel::Return(attempts) => {
                    &&& r matches CallStep::Done(Ok(result))
                    &&& result.response == reply->response
                    &&& attempt_models(result.fallback_attempts@) == attempts
                },
                StepModel::Fail(message) => r matches CallStep::Done(Err(e)) && e@ == message,
            },
    {
        proof {
            use_type_invariant(&self);
            lemma_project_header();
        }
        let base = endpoint(self.at);
        let has_next = self.at + 1 < ENDPOINTS;
        match reply {
            Reply::Response { status, response } => {
                if status.is_success() {
                    let none: Vec<FallbackAttemptLog> = Vec::new();
                    assert(attempt_models(none@) =~= Seq::<AttemptModel>::empty());
                    return CallStep::Done(
                        Ok(UpstreamCallResult { response, fallback_attempts: none }),
                    );
                }
                let code: u16 = status.as_u16();
                if code == 403 && !self.downgraded && header_contains(
                    &self.headers,
                    PROJECT_HEADER,
                ) {
                    return CallStep::Send(self.restart_without_project());
                }
                if has_next && status.is_retryable() {
                    let error = join4("Upstream ", base, " returned ", status.text().as_str());
                    return CallStep::Send(self.move_on(Some(code), error));
                }
                CallStep::Done(Ok(UpstreamCallResult { response, fallback_attempts: self.attempts }))
            },
            Reply::Failed(e) => {
                let message = join4("HTTP request failed at ", base, ": ", e.as_str());
                if has_next {
                    CallStep::Send(self.move_on(None, message))
                } else {
                    CallStep::Done(Err(message))
                }
            },
        }
    }
}

proof fn lemma_project_header()
    ensures
        crate::headers::header_name_ok(PROJECT_HEADER@),
        crate::text::ascii_lower_all(PROJECT_HEADER@) == PROJECT_HEADER@,
{
    reveal_strlit("x-goog-user-project");
    assert(crate::text::ascii_lower_all(PROJECT_HEADER@) =~= PROJECT_HEADER@);
}

// ----- Laws -----

/// How many requests a call makes when the outside replies as listed.
pub open spec fn requests_made(s: CallModel, replies: Seq<ReplyModel>) -> nat
    decreases replies.len(),
{
    if replies.len() == 0 {
        1
    } else {
        match next_step(s, replies[0]) {
            StepModel::Send(next) => 1 + requests_made(next, replies.drop_first()),
            _ => 1,
        }
    }
}

/// How many more requests a call can make, the current one with them.
pub open spec fn requests_left(s: CallModel) -> int {
    ENDPOINTS - s.at + if !s.downgraded && s.headers.contains_key(PROJECT_HEADER@) {
        ENDPOINTS as int
    } else {
        0
    }
}

/// A call comes to its end: whatever the outside replies, it makes no more
/// requests than there are endpoints, and a second round only where it started
/// with a project header.
pub proof fn law_calls_end(s: CallModel, replies: Seq<ReplyModel>)
    requires
        0 <= s.at < ENDPOINTS,
    ensures
        requests_made(s, replies) <= requests_left(s) <= 2 * ENDPOINTS,
    decreases replies.len(),
{
    if replies.len() > 0 {
        match next_step(s, replies[0]) {
            StepModel::Send(next) => {
                law_calls_end(next, replies.drop_first());
            },
            _ => {},
        }
    }
}

/// From one request to the next a call goes on to the next endpoint with nothing
/// else changed, or starts again without the project header; the latter once.
pub proof fn law_endpoints_are_tried_in_order(s: CallModel, reply: ReplyModel)
    ensures
        next_step(s, reply) matches StepModel::Send(next) ==> {
            &&& next.method == s.method && next.query == s.query && next.body == s.body
            &&& {
                ||| next.at == s.at + 1 && next.headers == s.headers && next.downgraded
                    == s.downgraded
                ||| next.at == 0 && next.headers == s.headers.remove(PROJECT_HEADER@)
                    && !s.downgraded && next.downgraded
            }
        },
{
}

/// A status that no other endpoint can better, such as 400, is the answer at
/// once: no further endpoint is asked.
pub proof fn law_final_status_is_not_retried(s: CallModel, code: u16)
    requires
        !retryable_code(code),
        code == 403 ==> s.downgraded || !s.headers.contains_key(PROJECT_HEADER@),
    ensures
        next_step(s, ReplyModel::Status(code)) is Return,
{
}

/// A call gives up only when the last endpoint cannot be reached, and then tells
/// why; any answer of the last endpoint is the result, or starts the second round.
pub proof fn law_only_the_network_fails_a_call(s: CallModel, reply: ReplyModel)
    requires
        0 <= s.at < ENDPOINTS,
    ensures
        next_step(s, reply) matches StepModel::Fail(message) ==> s.at == ENDPOINTS - 1 && (reply
            matches ReplyModel::Failed(e) && message == network_failure(
            V1_INTERNAL_BASE_URL_PROD@,
            e,
        )),
{
}

/// The attempts of a call always tell which endpoints failed in this round, each
/// once and in order.
pub proof fn law_attempts_tell_the_way(s: CallModel, reply: ReplyModel)
    requires
        attempts_tell_the_way(s),
    ensures
        next_step(s, reply) matches StepModel::Send(next) ==> attempts_tell_the_way(next),
        next_step(s, reply) matches StepModel::Return(attempts) ==> attempts.len() <= s.at,
{
}

/// A call that succeeds reports no failed attempts.
pub proof fn law_success_reports_no_attempts(s: CallModel, code: u16)
    requires
        success_code(code),
    ensures
        next_step(s, ReplyModel::Status(code)) == StepModel::Return(Seq::<AttemptModel>::empty()),
{
}

/// A status 403 to a request that carries the project header, whatever endpoint it went
/// to, starts the call again: at the first endpoint, without that header, with all
/// else as it was and no endpoint counted as failed.
pub proof fn law_forbidden_project_is_left_out<R>(
    call: UpstreamCall,
    status: HttpStatus,
    response: R,
    r: CallStep<R>,
)
    requires
        call_ensures(
            UpstreamCall::on_reply::<R>,
            (call, Reply::Response { status, response }),
            r,
        ),
        status@ == 403,
        !call@.downgraded,
        call@.headers.contains_key("x-goog-user-project"@),
    ensures
        r matches CallStep::Send(next) && {
            &&& next@.at == 0
            &&& next@.downgraded
            &&& next@.attempts.len() == 0
            &&& next@.headers == call@.headers.remove("x-goog-user-project"@)
            &&& next@.method == call@.method && next@.query == call@.query && next@.body
                == call@.body
        },
{
}

/// A status 403 to a request without the project header, or in the second round, is the
/// answer: that round is not made twice.
pub proof fn law_second_refusal_is_the_answer<R>(
    call: UpstreamCall,
    status: HttpStatus,
    response: R,
    r: CallStep<R>,
)
    requires
        call_ensures(
            UpstreamCall::on_reply::<R>,
            (call, Reply::Response { status, response }),
            r,
        ),
        status@ == 403,
        call@.downgraded || !call@.headers.contains_key("x-goog-user-project"@),
    ensures
        r matches CallStep::Done(Ok(result)) && result.response == response && attempt_models(
            result.fallback_attempts@,
        ) == call@.attempts,
{
}

/// A status from 200 to 299 ends the call with that response, whatever failed before,
/// and with no attempts.
pub proof fn law_success_is_the_answer<R>(
    call: UpstreamCall,
    status: HttpStatus,
    response: R,
    r: CallStep<R>,
)
    requires
        call_ensures(
            UpstreamCall::on_reply::<R>,
            (call, Reply::Response { status, response }),
            r,
        ),
        200 <= status@ <= 299,
    ensures
        r matches CallStep::Done(Ok(result)) && result.response == response
            && result.fallback_attempts.len() == 0,
{
    if let CallStep::Done(Ok(result)) = r {
        assert(attempt_models(result.fallback_attempts@).len() == 0);
    }
}

/// The statuses 404, 408 and 500 to 599 lead from every endpoint but the last to the
/// next one with the same request, and one attempt more is on record: which address
/// was asked, and what it said.
pub proof fn law_server_trouble_leads_to_the_next_endpoint<R>(
    call: UpstreamCall,
    status: HttpStatus,
    response: R,
    r: CallStep<R>,
)
    requires
        call_ensures(
            UpstreamCall::on_reply::<R>,
            (call, Reply::Response { status, response }),
            r,
        ),
        status@ == 404 || status@ == 408 || 500 <= status@ <= 599,
        call@.at < 2,
    ensures
        r matches CallStep::Send(next) && {
            &&& next@.at == call@.at + 1
            &&& next@.downgraded == call@.downgraded
            &&& next@.headers == call@.headers
            &&& next@.method == call@.method && next@.query == call@.query && next@.body
                == call@.body
            &&& next@.attempts.len() == call@.attempts.len() + 1
            &&& next@.attempts.drop_last() == call@.attempts
            &&& next@.attempts.last().endpoint_url == method_url(
                endpoint_base(call@.at),
                call@.method,
                call@.query,
            )
            &&& next@.attempts.last().status == Some(status@)
            &&& next@.attempts.last().error == "Upstream "@ + endpoint_base(call@.at)
                + " returned "@ + status_display(status@)
        },
{
    if let CallStep::Send(next) = r {
        assert(next@.attempts.drop_last() =~= call@.attempts);
    }
}

/// A request that cannot be sent leads from every endpoint but the last to the next one
/// with the same request, and the attempt is on record; at the last endpoint it ends
/// the call. What is recorded or reported names the endpoint and the reason.
pub proof fn law_lost_requests<R>(call: UpstreamCall, error: String, r: CallStep<R>)
    requires
        call_ensures(UpstreamCall::on_reply::<R>, (call, Reply::Failed(error)), r),
    ensures
        call@.at < 2 ==> (r matches CallStep::Send(next) && {
            &&& next@.at == call@.at + 1
            &&& next@.downgraded == call@.downgraded
            &&& next@.headers == call@.headers
            &&& next@.method == call@.method && next@.query == call@.query && next@.body
                == call@.body
            &&& next@.attempts.len() == call@.attempts.len() + 1
            &&& next@.attempts.drop_last() == call@.attempts
            &&& next@.attempts.last().endpoint_url == method_url(
                endpoint_base(call@.at),
                call@.method,
                call@.query,
            )
            &&& next@.attempts.last().status is None
            &&& next@.attempts.last().error == "HTTP request failed at "@ + endpoint_base(
                call@.at,
            ) + ": "@ + error@
        }),
        call@.at >= 2 ==> (r matches CallStep::Done(Err(message)) && message@
            == "HTTP request failed at "@ + endpoint_base(call@.at) + ": "@ + error@),
{
    if let CallStep::Send(next) = r {
        assert(next@.attempts.drop_last() =~= call@.attempts);
    }
}

/// Every other answer is the result of the call, with the attempts made so far: any
/// status at the last endpoint, and at the others each that is neither success, nor
/// 403, 404, 408, nor from 500 to 599.
pub proof fn law_other_answers_are_final<R>(
    call: UpstreamCall,
    status: HttpStatus,
    response: R,
    r: CallStep<R>,
)
    requires
        call_ensures(
            UpstreamCall::on_reply::<R>,
            (call, Reply::Response { status, response }),
            r,
        ),
        !(200 <= status@ <= 299) && status@ != 403,
        call@.at >= 2 || !(status@ == 404 || status@ == 408 || 500 <= status@ <= 599),
    ensures
        r matches CallStep::Done(Ok(result)) && result.response == response && attempt_models(
            result.fallback_attempts@,
        ) == call@.attempts,
{
}

/// What is on record of an attempt is what the record says.
pub proof fn law_attempts_are_told(attempts: Seq<FallbackAttemptLog>, i: int)
    requires
        0 <= i < attempts.len(),
    ensures
        attempt_models(attempts).len() == attempts.len(),
        attempt_models(attempts)[i].endpoint_url == attempts[i].endpoint_url@,
        attempt_models(attempts)[i].status == attempts[i].status,
        attempt_models(attempts)[i].error == attempts[i].error@,
{
}

/// The three endpoints and their order: daily, sandbox, production.
pub proof fn law_order_of_the_endpoints(i: usize, r: &'static str)
    requires
        call_ensures(endpoint, (i,), r),
    ensures
        i == 0 ==> r@ == "https://daily-cloudcode-pa.googleapis.com/v1internal"@,
        i == 1 ==> r@ == "https://daily-cloudcode-pa.sandbox.googleapis.com/v1internal"@,
        i == 2 ==> r@ == "https://cloudcode-pa.googleapis.com/v1internal"@,
        r@ == endpoint_base(i as int),
{
}

/// An address is the endpoint, a colon and the method, and where there is a query a
/// question mark and all of it.
pub proof fn law_addresses(base: &str, method: &str, query: Option<&str>, r: String)
    requires
        call_ensures(method_address, (base, method, query), r),
    ensures
        query is None ==> r@ == base@ + ":"@ + method@,
        query matches Some(q) ==> r@ == base@ + ":"@ + method@ + "?"@ + q@,
        r@ == method_url(base@, method@, opt_str_text(query)),
{
}

/// A request goes to the endpoint at which the call stands, and carries its headers and
/// its body; it is sent in chunks exactly where its method is the stream.
pub proof fn law_requests_of_a_call(
    call: &UpstreamCall,
    url: String,
    headers: &HeaderMap,
    body: &Vec<u8>,
    chunked: bool,
    attempts: &Vec<FallbackAttemptLog>,
)
    requires
        call_ensures(UpstreamCall::url, (call,), url),
        call_ensures(UpstreamCall::headers, (call,), headers),
        call_ensures(UpstreamCall::body, (call,), body),
        call_ensures(UpstreamCall::is_chunked, (call,), chunked),
        call_ensures(UpstreamCall::attempts, (call,), attempts),
    ensures
        call@.query is None ==> url@ == endpoint_base(call@.at) + ":"@ + call@.method,
        call@.query matches Some(q) ==> url@ == endpoint_base(call@.at) + ":"@ + call@.method
            + "?"@ + q,
        header_contents(*headers) == call@.headers,
        body@ == call@.body,
        chunked <==> call@.method == "streamGenerateContent"@,
        attempt_models(attempts@) == call@.attempts,
{
}

} // verus!
