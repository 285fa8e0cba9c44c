//! The JSON bodies of requests.

use serde_json::Value;
use vstd::prelude::*;

use crate::text::opt_text;

verus! {

/// `serde_json::Value`, a JSON text as it was parsed.
#[verifier::external_type_specification]
#[verifier::external_body]
pub struct ExValue(Value);

/// The members of a JSON object that are strings; none of anything else.
pub uninterp spec fn text_members(v: Value) -> Map<Seq<char>, Seq<char>>;

/// The names of the members of a JSON object; none of anything else.
pub uninterp spec fn member_names(v: Value) -> Set<Seq<char>>;

/// The bytes of a JSON text as it is written out.
pub uninterp spec fn json_bytes(v: Value) -> Seq<u8>;

/// No members.
pub open spec fn no_members() -> Map<Seq<char>, Seq<char>> {
    Map::empty()
}

/// Calls `serde_json::Value::get` and `serde_json::Value::as_str`. Claimed of
/// them: the text of a member that is a string is found, and nothing else.
#[verifier::external_body]
fn get_text(v: &Value, key: &str) -> (r: Option<String>)
    ensures
        opt_text(r) == if text_members(*v).contains_key(key@) {
            Some(text_members(*v)[key@])
        } else {
            None
        },
{
    v.get(key).and_then(Value::as_str).map(str::to_string)
}

/// Calls `serde_json::Value::get`. Claimed of it: it tells whether there is a
/// member of this name.
#[verifier::external_body]
fn has_member(v: &Value, key: &str) -> (r: bool)
    ensures
        r == member_names(*v).contains(key@),
{
    v.get(key).is_some()
}

/// Calls `serde_json::Map::new`, for the object without members. Claimed of it:
/// it has none, and is written out as two braces.
#[verifier::external_body]
fn empty_map() -> (r: Value)
    ensures
        text_members(r) == no_members(),
        json_bytes(r) == seq![123u8, 125u8],
{
    Value::Object(serde_json::Map::new())
}

/// Calls `serde_json::to_vec`. Claimed of it: a value that was parsed or built can
/// always be written out, and the bytes depend on it alone. Which bytes they are
/// is named and not spelled out.
#[verifier::external_body]
fn to_vec(v: &Value) -> (r: Result<Vec<u8>, String>)
    ensures
        r is Ok,
        (r->Ok_0)@ == json_bytes(*v),
{
    serde_json::to_vec(v).map_err(|e| e.to_string())
}

/// The project that a body names.
pub open spec fn project_of(body: Value) -> Option<Seq<char>> {
    if text_members(body).contains_key("project"@) {
        Some(text_members(body)["project"@])
    } else {
        None
    }
}

/// The project that a body names.
pub fn body_project(body: &Value) -> (r: Option<String>)
    ensures
        opt_text(r) == project_of(*body),
{
    get_text(body, "project")
}

/// Whether the payload of a body stands in its member `request`. If not, the
/// body itself is the payload.
pub fn wraps_request(body: &Value) -> (r: bool)
    ensures
        r == member_names(*body).contains("request"@),
{
    has_member(body, "request")
}

/// The bytes that are sent for a body.
pub fn body_bytes(body: &Value) -> (r: Vec<u8>)
    ensures
        r@ == json_bytes(*body),
{
    to_vec(body).unwrap()
}

/// The body `{}`.
pub fn empty_body() -> (r: Value)
    ensures
        project_of(r) is None,
        json_bytes(r) == seq![123u8, 125u8],
{
    empty_map()
}

// ----- Laws -----

/// A body names the project that its member of that name holds, where that is a text, and
/// else none; it is sent as it is written out, and wraps a request exactly where it has a
/// member of that name.
pub proof fn law_what_bodies_say(
    body: &Value,
    project: Option<String>,
    wraps: bool,
    bytes: Vec<u8>,
)
    requires
        call_ensures(body_project, (body,), project),
        call_ensures(wraps_request, (body,), wraps),
        call_ensures(body_bytes, (body,), bytes),
    ensures
        project is Some <==> text_members(*body).contains_key("project"@),
        project matches Some(p) ==> p@ == text_members(*body)["project"@],
        wraps <==> member_names(*body).contains("request"@),
        bytes@ == json_bytes(*body),
{
}

/// The empty body names no project and is sent as two braces.
pub proof fn law_empty_body(body: Value, project: Option<String>, bytes: Vec<u8>)
    requires
        call_ensures(empty_body, (), body),
        call_ensures(body_project, (&body,), project),
        call_ensures(body_bytes, (&body,), bytes),
    ensures
        project is None,
        bytes@ == seq![123u8, 125u8],
{
}

} // verus!
