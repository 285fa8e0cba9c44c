//! Calls to the upstream for this program's own sake, such as summaries made in
//! the background. They go by the same endpoints, addresses and rule of fallback
//! as the calls of users, without the headers of a conversation.

use vstd::prelude::*;

use crate::fallback::{
    endpoint, endpoint_base, method_address, method_url, next_step, CallModel, ReplyModel,
    StepModel, ENDPOINTS,
};
use crate::headers::PROJECT_HEADER;
use crate::status::{retryable_code, status_display, success_code, HttpStatus};
use crate::text::{join2, join4};

verus! {

/// An auxiliary call under way: the request that is to be sent next.
pub struct AuxiliaryCall {
    method: String,
    access_token: String,
    body: Vec<u8>,
    timeout_secs: u64,
    at: usize,
}

/// Where an auxiliary call stands.
pub struct AuxiliaryModel {
    pub method: Seq<char>,
    pub access_token: Seq<char>,
    pub body: Seq<u8>,
    pub timeout_secs: u64,
    /// The endpoint that the request goes to.
    pub at: int,
}

/// What is to be done next.
pub enum AuxiliaryStep {
    /// Send the request of this call.
    Send(AuxiliaryCall),
    /// Read the text of the response, which was turned down.
    ReadText(RejectedCall),
    /// Read the JSON of the response.
    ReadJson(AuxiliaryCall),
    /// The call failed, with this message.
    Failed(String),
}

/// What is to be done next.
pub enum AuxiliaryStepModel {
    Send(AuxiliaryModel),
    ReadText(AuxiliaryModel, u16),
    ReadJson(AuxiliaryModel),
    Failed(Seq<char>),
}

/// An auxiliary call whose request was answered with a status other than success.
pub struct RejectedCall {
    call: AuxiliaryCall,
    status: HttpStatus,
}

/// The address of the request.
pub open spec fn auxiliary_url(s: AuxiliaryModel) -> Seq<char> {
    method_url(endpoint_base(s.at), s.method, None)
}

/// The headers of every request of a call, and no others: who asks, and what the
/// body is. The headers of a conversation are not among them.
pub open spec fn auxiliary_headers(s: AuxiliaryModel) -> Seq<(Seq<char>, Seq<char>)> {
    seq![
        ("Authorization"@, "Bearer "@ + s.access_token),
        ("Content-Type"@, "application/json"@),
    ]
}

/// Headers by their texts.
pub open spec fn header_texts(headers: Seq<(&'static str, String)>) -> Seq<
    (Seq<char>, Seq<char>),
> {
    headers.map_values(|h: (&'static str, String)| (h.0@, h.1@))
}

/// On to the next endpoint, or over with the message if there is none.
pub open spec fn next_or_fail(s: AuxiliaryModel, message: Seq<char>) -> AuxiliaryStepModel {
    if s.at + 1 < ENDPOINTS {
        AuxiliaryStepModel::Send(AuxiliaryModel { at: s.at + 1, ..s })
    } else {
        AuxiliaryStepModel::Failed(message)
    }
}

/// What the outcome of a request leads to.
pub open spec fn after_send(s: AuxiliaryModel, reply: ReplyModel) -> AuxiliaryStepModel {
    match reply {
        ReplyModel::Status(code) => if success_code(code) {
            AuxiliaryStepModel::ReadJson(s)
        } else {
            AuxiliaryStepModel::ReadText(s, code)
        },
        ReplyModel::Failed(e) => next_or_fail(
            s,
            "request to "@ + auxiliary_url(s) + " failed: "@ + e,
        ),
    }
}

/// How an answer other than success is reported.
pub open spec fn rejection(s: AuxiliaryModel, code: u16, text: Seq<char>) -> Seq<char> {
    auxiliary_url(s) + " returned "@ + status_display(code) + ": "@ + text
}

/// What an answer other than success leads to.
pub open spec fn after_rejection(
    s: AuxiliaryModel,
    code: u16,
    text: Seq<char>,
) -> AuxiliaryStepModel {
    if retryable_code(code) {
        next_or_fail(s, rejection(s, code, text))
    } else {
        AuxiliaryStepModel::Failed(rejection(s, code, text))
    }
}

impl AuxiliaryStep {
    /// What is to be done next.
    pub open spec fn view(&self) -> AuxiliaryStepModel {
        match self {
            AuxiliaryStep::Send(call) => AuxiliaryStepModel::Send(call@),
            AuxiliaryStep::ReadText(rejected) => AuxiliaryStepModel::ReadText(
                rejected@.0,
                rejected@.1,
            ),
            AuxiliaryStep::ReadJson(call) => AuxiliaryStepModel::ReadJson(call@),
            AuxiliaryStep::Failed(message) => AuxiliaryStepModel::Failed(message@),
        }
    }
}

impl AuxiliaryCall {
    /// Where the call stands.
    pub closed spec fn view(&self) -> AuxiliaryModel {
        AuxiliaryModel {
            method: self.method@,
            access_token: self.access_token@,
            body: self.body@,
            timeout_secs: self.timeout_secs,
            at: self.at as int,
        }
    }

    #[verifier::type_invariant]
    spec fn wf(self) -> bool {
        self.at < ENDPOINTS
    }

    /// A call that starts with a request to the first endpoint.
    pub(crate) fn start(
        method: &str,
        access_token: &str,
        body: Vec<u8>,
        timeout_secs: u64,
    ) -> (r: AuxiliaryCall)
        ensures
            r@ == (AuxiliaryModel {
                method: method@,
                access_token: access_token@,
                body: body@,
                timeout_secs,
                at: 0,
            }),
    {
        AuxiliaryCall {
            method: method.to_string(),
            access_token: access_token.to_string(),
            body,
            timeout_secs,
            at: 0,
        }
    }

    /// The address that the request goes to.
    pub fn url(&self) -> (r: String)
        ensures
            r@ == auxiliary_url(self@),
    {
        proof {
            use_type_invariant(self);
        }
        method_address(endpoint(self.at), self.method.as_str(), None)
    }

    /// All headers of the request. A token that cannot be sent is not turned away
    /// here: the request fails when it is sent.
    pub fn headers(&self) -> (r: Vec<(&'static str, String)>)
        ensures
            header_texts(r@) == auxiliary_headers(self@),
    {
        let bearer = join2("Bearer ", self.access_token.as_str());
        let r = vec![("Authorization", bearer), ("Content-Type", "application/json".to_string())];
        assert(header_texts(r@) =~= auxiliary_headers(self@));
        r
    }

    /// The body of the request.
    pub fn body(&self) -> (r: &Vec<u8>)
        ensures
            r@ == self@.body,
    {
        &self.body
    }

    /// How long the request may take, in seconds.
    pub fn timeout_secs(&self) -> (r: u64)
        ensures
            r == self@.timeout_secs,
    {
        self.timeout_secs
    }

    /// On to the next endpoint, or over with the message if there is none.
    fn next_or_fail(self, message: String) -> (r: AuxiliaryStep)
        ensures
            r@ == next_or_fail(self@, message@),
    {
        proof {
            use_type_invariant(&self);
        }
        if self.at + 1 < ENDPOINTS {
            let AuxiliaryCall { method, access_token, body, timeout_secs, at } = self;
            AuxiliaryStep::Send(
                AuxiliaryCall { method, access_token, body, timeout_secs, at: at + 1 },
            )
        } else {
            AuxiliaryStep::Failed(message)
        }
    }

    /// What the outcome of the request leads to: its status, or the message of a
    /// failure of the network.
    pub fn on_send(self, outcome: Result<HttpStatus, String>) -> (r: AuxiliaryStep)
        ensures
            r@ == after_send(
                self@,
                match outcome {
                    Ok(status) => ReplyModel::Status(status@),
                    Err(e) => ReplyModel::Failed(e@),
                },
            ),
    {
        match outcome {
            Ok(status) => if status.is_success() {
                AuxiliaryStep::ReadJson(self)
            } else {
                AuxiliaryStep::ReadText(RejectedCall { call: self, status })
            },
            Err(e) => {
                let message = join4("request to ", self.url().as_str(), " failed: ", e.as_str());
                self.next_or_fail(message)
            },
        }
    }

    /// The result of the call: the JSON of the response, or why it could not be read.
    pub fn on_json<V>(self, parsed: Result<V, String>) -> (r: Result<V, String>)
        ensures
            match parsed {
                Ok(v) => r == Ok::<V, String>(v),
                Err(e) => r matches Err(message) && message@ == "failed to parse response from "@
                    + auxiliary_url(self@) + ": "@ + e@,
            },
    {
        match parsed {
            Ok(v) => Ok(v),
            Err(e) => Err(
                join4("failed to parse response from ", self.url().as_str(), ": ", e.as_str()),
            ),
        }
    }
}

impl RejectedCall {
    /// The call, and the code of the status.
    pub closed spec fn view(&self) -> (AuxiliaryModel, u16) {
        (self.call@, self.status@)
    }

    /// What the answer leads to. A text that cannot be read counts as empty.
    pub fn on_text(self, text: Option<String>) -> (r: AuxiliaryStep)
        ensures
            r@ == after_rejection(
                self@.0,
                self@.1,
                match text {
                    Some(t) => t@,
                    None => Seq::empty(),
                },
            ),
    {
        let RejectedCall { call, status } = self;
        let mut message = join4(call.url().as_str(), " returned ", status.text().as_str(), ": ");
        match text {
            Some(t) => message.append(t.as_str()),
            None => {
                assert(message@ + Seq::<char>::empty() =~= message@);
            },
        }
        if status.is_retryable() {
            call.next_or_fail(message)
        } else {
            AuxiliaryStep::Failed(message)
        }
    }
}

// ----- Laws -----

/// An auxiliary call goes by the rule of the calls of users: on the same status,
/// at the same endpoint, both ask the next endpoint or neither does, and they
/// ask at the same address.
pub proof fn law_auxiliary_calls_fall_back_alike(
    s: AuxiliaryModel,
    call: CallModel,
    code: u16,
    text: Seq<char>,
)
    requires
        call.at == s.at,
        call.method == s.method,
        call.query is None,
        !call.headers.contains_key(PROJECT_HEADER@),
        !success_code(code),
    ensures
        after_rejection(s, code, text) is Send <==> next_step(
            call,
            ReplyModel::Status(code),
        ) is Send,
        after_rejection(s, code, text) matches AuxiliaryStepModel::Send(next) ==> next_step(
            call,
            ReplyModel::Status(code),
        ) matches StepModel::Send(other) ==> auxiliary_url(next) == method_url(
            endpoint_base(other.at),
            other.method,
            other.query,
        ),
{
}

/// An auxiliary call tries the endpoints in order, each once.
pub proof fn law_auxiliary_endpoints_in_order(
    s: AuxiliaryModel,
    reply: ReplyModel,
    code: u16,
    text: Seq<char>,
)
    requires
        0 <= s.at < ENDPOINTS,
    ensures
        after_send(s, reply) matches AuxiliaryStepModel::Send(next) ==> next.at == s.at + 1
            && next.at < ENDPOINTS,
        after_rejection(s, code, text) matches AuxiliaryStepModel::Send(next) ==> next.at == s.at
            + 1 && next.at < ENDPOINTS,
{
}

/// All requests of a call carry the same body and the same headers, and may take
/// the same time: only the endpoint changes.
pub proof fn law_auxiliary_requests_are_alike(
    s: AuxiliaryModel,
    reply: ReplyModel,
    code: u16,
    text: Seq<char>,
)
    ensures
        after_send(s, reply) matches AuxiliaryStepModel::Send(next) ==> next.body == s.body
            && auxiliary_headers(next) == auxiliary_headers(s) && next.timeout_secs
            == s.timeout_secs && next.method == s.method,
        after_rejection(s, code, text) matches AuxiliaryStepModel::Send(next) ==> next.body
            == s.body && auxiliary_headers(next) == auxiliary_headers(s) && next.timeout_secs
            == s.timeout_secs && next.method == s.method,
{
}

/// A request that is wrong in itself, as status 400 says, is not sent again.
pub proof fn law_auxiliary_final_status_is_not_retried(
    s: AuxiliaryModel,
    code: u16,
    text: Seq<char>,
)
    requires
        !retryable_code(code),
    ensures
        after_rejection(s, code, text) == AuxiliaryStepModel::Failed(rejection(s, code, text)),
{
}

/// A request goes to the method at the endpoint where the call stands, with the whole
/// token and the announcement of JSON as its only headers, the body of the call, and the
/// time that the call was given.
pub proof fn law_auxiliary_requests(
    call: &AuxiliaryCall,
    url: String,
    headers: Vec<(&'static str, String)>,
    body: &Vec<u8>,
    secs: u64,
)
    requires
        call_ensures(AuxiliaryCall::url, (call,), url),
        call_ensures(AuxiliaryCall::headers, (call,), headers),
        call_ensures(AuxiliaryCall::body, (call,), body),
        call_ensures(AuxiliaryCall::timeout_secs, (call,), secs),
    ensures
        url@ == endpoint_base(call@.at) + ":"@ + call@.method,
        headers.len() == 2,
        headers@[0].0@ == "Authorization"@ && headers@[0].1@ == "Bearer "@ + call@.access_token,
        headers@[1].0@ == "Content-Type"@ && headers@[1].1@ == "application/json"@,
        body@ == call@.body,
        secs == call@.timeout_secs,
{
    let texts = header_texts(headers@);
    assert(texts == auxiliary_headers(call@));
    assert(texts.len() == headers@.len());
    assert(texts[0] == (headers@[0].0@, headers@[0].1@));
    assert(texts[1] == (headers@[1].0@, headers@[1].1@));
}

/// Success is read as JSON, any other answer as text. A request that cannot be sent leads
/// from every endpoint but the last to the next one, with all else as it was; at the last
/// one it ends the call, and what is told names the address and the reason.
pub proof fn law_outcomes_of_auxiliary_requests(
    call: AuxiliaryCall,
    status: HttpStatus,
    error: String,
    answered: AuxiliaryStep,
    lost: AuxiliaryStep,
)
    requires
        call_ensures(AuxiliaryCall::on_send, (call, Ok::<HttpStatus, String>(status)), answered),
        call_ensures(AuxiliaryCall::on_send, (call, Err::<HttpStatus, String>(error)), lost),
    ensures
        200 <= status@ <= 299 ==> (answered matches AuxiliaryStep::ReadJson(same) && same@
            == call@),
        !(200 <= status@ <= 299) ==> (answered matches AuxiliaryStep::ReadText(rejected)
            && rejected@.0 == call@ && rejected@.1 == status@),
        call@.at < 2 ==> (lost matches AuxiliaryStep::Send(next) && {
            &&& next@.at == call@.at + 1
            &&& next@.method == call@.method && next@.access_token == call@.access_token
            &&& next@.body == call@.body && next@.timeout_secs == call@.timeout_secs
        }),
        call@.at >= 2 ==> (lost matches AuxiliaryStep::Failed(message) && message@ == "request to "@
            + (endpoint_base(call@.at) + ":"@ + call@.method) + " failed: "@ + error@),
{
}

/// The statuses 404, 408 and 500 to 599 lead from every endpoint but the last to the next
/// one, with all else as it was. Any other, and any at the last endpoint, ends the call,
/// and what is told names the address, the status and the text of the answer.
pub proof fn law_rejected_auxiliary_requests(
    rejected: RejectedCall,
    text: Option<String>,
    r: AuxiliaryStep,
)
    requires
        call_ensures(RejectedCall::on_text, (rejected, text), r),
    ensures
        ({
            let call = rejected@.0;
            let code = rejected@.1;
            let trouble = code == 404 || code == 408 || 500 <= code <= 599;
            &&& trouble && call.at < 2 ==> (r matches AuxiliaryStep::Send(next) && {
                &&& next@.at == call.at + 1
                &&& next@.method == call.method && next@.access_token == call.access_token
                &&& next@.body == call.body && next@.timeout_secs == call.timeout_secs
            })
            &&& !trouble || call.at >= 2 ==> (r matches AuxiliaryStep::Failed(message) && message@
                == (endpoint_base(call.at) + ":"@ + call.method) + " returned "@ + status_display(
                code,
            ) + ": "@ + (match text {
                Some(t) => t@,
                None => Seq::<char>::empty(),
            }))
        }),
{
}

/// What was parsed is the result; where nothing could be, what is told names the address
/// and the reason.
pub proof fn law_answers_of_auxiliary_calls<V>(
    call: AuxiliaryCall,
    value: V,
    error: String,
    parsed: Result<V, String>,
    unparsed: Result<V, String>,
)
    requires
        call_ensures(AuxiliaryCall::on_json::<V>, (call, Ok::<V, String>(value)), parsed),
        call_ensures(AuxiliaryCall::on_json::<V>, (call, Err::<V, String>(error)), unparsed),
    ensures
        parsed == Ok::<V, String>(value),
        unparsed matches Err(message) && message@ == "failed to parse response from "@ + (
        endpoint_base(call@.at) + ":"@ + call@.method) + ": "@ + error@,
{
}

} // verus!
