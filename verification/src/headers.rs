//! The headers of a request to the upstream.

use reqwest::header::{HeaderMap, HeaderName, HeaderValue};
use vstd::prelude::*;
use vstd::utf8::encode_utf8;

use crate::session::{
    derive_session_uuid, is_hex, law_session_id_is_a_uuid, session_uuid, sha256_digest,
    SESSION_PREFIX,
};
use crate::text::{ascii_lower_all, eq_ignore_ascii_case, join2, opt_str_text, str_eq};

verus! {

// ----- Header maps -----

/// `reqwest::header::HeaderMap`, which holds the headers of a request.
#[verifier::external_type_specification]
#[verifier::external_body]
#[verifier::reject_recursive_types(T)]
pub struct ExHeaderMap<T>(HeaderMap<T>);

/// `reqwest::header::HeaderValue`, the value of a header.
#[verifier::external_type_specification]
#[verifier::external_body]
pub struct ExHeaderValue(HeaderValue);

/// The headers of a map: the first value of each name, names in small letters.
pub uninterp spec fn header_contents(m: HeaderMap) -> Map<Seq<char>, Seq<u8>>;

/// No headers.
pub open spec fn no_headers() -> Map<Seq<char>, Seq<u8>> {
    Map::empty()
}

/// How many names a map can hold with room left for one more, however they hash.
/// With more it depends on how they hash, which may be by chance.
pub const MAX_HEADER_NAMES: usize = 6553;

/// The characters of header names.
pub open spec fn is_name_char(c: char) -> bool {
    ||| 'a' <= c <= 'z'
    ||| 'A' <= c <= 'Z'
    ||| '0' <= c <= '9'
    ||| c == '!' || c == '#' || c == '$' || c == '%' || c == '&' || c == '\'' || c == '*'
    ||| c == '+' || c == '-' || c == '.' || c == '^' || c == '_' || c == '`' || c == '|'
    ||| c == '~'
}

/// The texts that can name a header.
pub open spec fn header_name_ok(s: Seq<char>) -> bool {
    &&& 1 <= s.len() <= 65535
    &&& forall|i: int| 0 <= i < s.len() ==> is_name_char(#[trigger] s[i])
}

/// The texts that can be the value of a header: no control characters but tabs.
pub open spec fn header_value_ok(s: Seq<char>) -> bool {
    forall|i: int| 0 <= i < s.len() ==> #[trigger] s[i] == '\t' || (s[i] >= ' ' && s[i] != '\u{7f}')
}

/// Calls `reqwest::header::HeaderMap::new`. Claimed of it: there are no headers.
#[verifier::external_body]
fn header_map_new() -> (r: HeaderMap)
    ensures
        header_contents(r) == no_headers(),
{
    HeaderMap::new()
}

/// Calls `reqwest::header::HeaderName::from_bytes`. Claimed of it: a name of 1 to
/// 65535 characters, all of them letters, digits and the marks of a token, is
/// accepted, and no other.
#[verifier::external_body]
fn is_header_name(name: &str) -> (r: bool)
    ensures
        r == header_name_ok(name@),
{
    HeaderName::from_bytes(name.as_bytes()).is_ok()
}

/// Calls `reqwest::header::HeaderValue::from_str`. Claimed of it: a text without
/// control characters other than tabs is accepted, and no other; the error has
/// one text for all.
#[verifier::external_body]
fn check_header_value(value: &str) -> (r: Result<(), String>)
    ensures
        r is Ok <==> header_value_ok(value@),
        r matches Err(e) ==> e@ == "failed to parse header value"@,
{
    HeaderValue::from_str(value).map(|_| ()).map_err(|e| e.to_string())
}

/// Calls `reqwest::header::HeaderMap::try_insert`, with a name and a value made as
/// in [`is_header_name`] and [`check_header_value`]. Claimed of it: the value
/// replaces whatever the name had, in small letters, and the other names keep
/// theirs; or the map is full, and stays as it is. With few enough names it is not
/// full. When it is with more is not said: it depends on how the names hash.
#[verifier::external_body]
fn header_insert(m: &mut HeaderMap, name: &str, value: &str) -> (r: Result<(), String>)
    requires
        header_name_ok(name@),
        header_value_ok(value@),
    ensures
        r is Ok ==> header_contents(*final(m)) == header_contents(*old(m)).insert(
            ascii_lower_all(name@),
            encode_utf8(value@),
        ),
        r is Err ==> header_contents(*final(m)) == header_contents(*old(m)),
        header_contents(*old(m)).dom().len() <= MAX_HEADER_NAMES ==> r is Ok,
        r matches Err(e) ==> e@ == "max size reached"@,
{
    let name = HeaderName::from_bytes(name.as_bytes()).unwrap();
    let value = HeaderValue::from_str(value).unwrap();
    m.try_insert(name, value).map(|_| ()).map_err(|e| e.to_string())
}

/// Calls `reqwest::header::HeaderMap::remove`. Claimed of it: the name is gone,
/// whatever its case, and the other names keep their values.
#[verifier::external_body]
pub(crate) fn header_remove(m: &mut HeaderMap, name: &str)
    requires
        header_name_ok(name@),
    ensures
        header_contents(*final(m)) == header_contents(*old(m)).remove(ascii_lower_all(name@)),
{
    m.remove(name);
}

/// Calls `reqwest::header::HeaderMap::contains_key`. Claimed of it: it tells
/// whether the name has a value, whatever its case.
#[verifier::external_body]
pub(crate) fn header_contains(m: &HeaderMap, name: &str) -> (r: bool)
    requires
        header_name_ok(name@),
    ensures
        r == header_contents(*m).contains_key(ascii_lower_all(name@)),
{
    m.contains_key(name)
}

// ----- What goes into a request -----

/// How this program shows itself to the upstream.
pub struct Egress {
    pub user_agent: String,
    pub client_version: String,
    /// The identity of the machine, where it could be read.
    pub machine_id: Option<String>,
    /// The session of requests that name none.
    pub session_id: String,
}

/// The header that charges a request to a project.
pub const PROJECT_HEADER: &'static str = "x-goog-user-project";

/// The user agent where the configured one cannot be sent.
pub const FALLBACK_USER_AGENT: &'static str = "antigravity";

/// The methods that create content.
pub open spec fn is_content_method(method: Seq<char>) -> bool {
    method == "generateContent"@ || method == "streamGenerateContent"@
}

/// Whether the method creates content.
pub fn is_content_request(method: &str) -> (r: bool)
    ensures
        r == is_content_method(method@),
{
    str_eq(method, "generateContent") || str_eq(method, "streamGenerateContent")
}

/// The projects that are not placeholders.
pub open spec fn is_real_project(project: Seq<char>) -> bool {
    project.len() > 0 && project != "test-project"@ && project != "project-id"@
}

/// The text, or the fallback where it cannot be the value of a header.
pub open spec fn sendable_user_agent(user_agent: Seq<char>) -> Seq<char> {
    if header_value_ok(user_agent) {
        user_agent
    } else {
        FALLBACK_USER_AGENT@
    }
}

/// The user agent that is sent: the fallback where this one cannot be.
pub fn usable_user_agent<'a>(user_agent: &'a str) -> (r: &'a str)
    ensures
        r@ == sendable_user_agent(user_agent@),
{
    match check_header_value(user_agent) {
        Ok(_) => user_agent,
        Err(_) => FALLBACK_USER_AGENT,
    }
}

/// The value of the first header with exactly this name.
pub open spec fn value_of(extra: Seq<(String, String)>, name: Seq<char>) -> Option<Seq<char>>
    decreases extra.len(),
{
    if extra.len() == 0 {
        None
    } else if extra[0].0@ == name {
        Some(extra[0].1@)
    } else {
        value_of(extra.drop_first(), name)
    }
}

/// The session that a request belongs to: the one it names, hashed, or else the
/// session of this program.
pub open spec fn session_of(extra: Seq<(String, String)>, default: Seq<char>) -> Seq<char> {
    match value_of(extra, "x-session-id"@) {
        Some(id) => session_uuid(id),
        None => default,
    }
}

/// `m` with a value for a name.
pub open spec fn put(
    m: Map<Seq<char>, Seq<u8>>,
    name: Seq<char>,
    value: Seq<char>,
) -> Map<Seq<char>, Seq<u8>> {
    m.insert(name, encode_utf8(value))
}

/// `m` with a value for a name, if it can be the value of a header.
pub open spec fn put_if_ok(
    m: Map<Seq<char>, Seq<u8>>,
    name: Seq<char>,
    value: Seq<char>,
) -> Map<Seq<char>, Seq<u8>> {
    if header_value_ok(value) {
        put(m, name, value)
    } else {
        m
    }
}

/// The headers that say who sends the request.
pub open spec fn identity_headers(
    token: Seq<char>,
    egress: Egress,
    session: Seq<char>,
) -> Map<Seq<char>, Seq<u8>> {
    let m = put(no_headers(), "content-type"@, "application/json"@);
    let m = put(m, "authorization"@, "Bearer "@ + token);
    let m = put(m, "user-agent"@, sendable_user_agent(egress.user_agent@));
    let m = put(m, "x-client-name"@, "antigravity"@);
    let m = put_if_ok(m, "x-client-version"@, egress.client_version@);
    let m = match egress.machine_id {
        Some(id) => put_if_ok(m, "x-machine-id"@, id@),
        None => m,
    };
    put_if_ok(m, "x-vscode-sessionid"@, session)
}

/// `m` with the project that the body names; content goes without.
pub open spec fn with_project(
    m: Map<Seq<char>, Seq<u8>>,
    method: Seq<char>,
    project: Option<Seq<char>>,
) -> Map<Seq<char>, Seq<u8>> {
    match project {
        Some(p) => if !is_content_method(method) && is_real_project(p) {
            put_if_ok(m, PROJECT_HEADER@, p)
        } else {
            m
        },
        None => m,
    }
}

/// A header that is passed through: any that can be sent but the user agent.
pub open spec fn passes(header: (String, String)) -> bool {
    &&& ascii_lower_all(header.0@) != ascii_lower_all("user-agent"@)
    &&& header_name_ok(header.0@)
    &&& header_value_ok(header.1@)
}

/// `m` with the headers passed through over it, one after another.
pub open spec fn with_extra(
    m: Map<Seq<char>, Seq<u8>>,
    extra: Seq<(String, String)>,
) -> Map<Seq<char>, Seq<u8>>
    decreases extra.len(),
{
    if extra.len() == 0 {
        m
    } else {
        let front = with_extra(m, extra.drop_last());
        if passes(extra.last()) {
            put(front, ascii_lower_all(extra.last().0@), extra.last().1@)
        } else {
            front
        }
    }
}

/// All headers that a request is given.
pub open spec fn given_headers(
    method: Seq<char>,
    token: Seq<char>,
    egress: Egress,
    project: Option<Seq<char>>,
    extra: Seq<(String, String)>,
) -> Map<Seq<char>, Seq<u8>> {
    let m = identity_headers(token, egress, session_of(extra, egress.session_id@));
    with_extra(with_project(m, method, project), extra)
}

/// The headers that a request is sent with: content goes without a project, whoever
/// gives it.
pub open spec fn request_headers(
    method: Seq<char>,
    token: Seq<char>,
    egress: Egress,
    project: Option<Seq<char>>,
    extra: Seq<(String, String)>,
) -> Map<Seq<char>, Seq<u8>> {
    let m = given_headers(method, token, egress, project, extra);
    if is_content_method(method) {
        m.remove(PROJECT_HEADER@)
    } else {
        m
    }
}

// ----- Building -----

/// The names of the headers that this program sets by itself.
pub open spec fn is_own_name(name: Seq<char>) -> bool {
    ||| name == "content-type"@
    ||| name == "authorization"@
    ||| name == "user-agent"@
    ||| name == "x-client-name"@
    ||| name == "x-client-version"@
    ||| name == "x-machine-id"@
    ||| name == "x-vscode-sessionid"@
    ||| name == PROJECT_HEADER@
}

proof fn lemma_own_name(name: Seq<char>)
    requires
        is_own_name(name),
    ensures
        header_name_ok(name),
        ascii_lower_all(name) == name,
{
    reveal_strlit("content-type");
    reveal_strlit("authorization");
    reveal_strlit("user-agent");
    reveal_strlit("x-client-name");
    reveal_strlit("x-client-version");
    reveal_strlit("x-machine-id");
    reveal_strlit("x-vscode-sessionid");
    reveal_strlit("x-goog-user-project");
    assert(ascii_lower_all(name) =~= name);
}

/// There are at most `n` headers.
pub open spec fn at_most(m: Map<Seq<char>, Seq<u8>>, n: int) -> bool {
    m.dom().finite() && m.dom().len() <= n
}

/// Sets a header of this program's own.
fn put_own(m: &mut HeaderMap, name: &str, value: &str, Ghost(n): Ghost<int>)
    requires
        is_own_name(name@),
        header_value_ok(value@),
        at_most(header_contents(*old(m)), n),
        n <= MAX_HEADER_NAMES,
    ensures
        header_contents(*final(m)) == put(header_contents(*old(m)), name@, value@),
        at_most(header_contents(*final(m)), n + 1),
{
    proof {
        lemma_own_name(name@);
    }
    let _ = header_insert(m, name, value);
}

/// Sets a header of this program's own, if it can have this value.
fn put_own_if_ok(m: &mut HeaderMap, name: &str, value: &str, Ghost(n): Ghost<int>)
    requires
        is_own_name(name@),
        at_most(header_contents(*old(m)), n),
        n <= MAX_HEADER_NAMES,
    ensures
        header_contents(*final(m)) == put_if_ok(header_contents(*old(m)), name@, value@),
        at_most(header_contents(*final(m)), n + 1),
{
    if check_header_value(value).is_ok() {
        put_own(m, name, value, Ghost(n));
    }
}

/// The value of the first header with exactly this name.
fn find_value<'a>(extra: &'a Vec<(String, String)>, name: &str) -> (r: Option<&'a str>)
    ensures
        opt_str_text(r) == value_of(extra@, name@),
{
    let mut i: usize = 0;
    assert(extra@.skip(0) =~= extra@);
    while i < extra.len()
        invariant
            i <= extra.len(),
            value_of(extra@, name@) == value_of(extra@.skip(i as int), name@),
        decreases extra.len() - i,
    {
        if str_eq(extra[i].0.as_str(), name) {
            return Some(extra[i].1.as_str());
        }
        assert(extra@.skip(i as int).drop_first() =~= extra@.skip(i + 1));
        i = i + 1;
    }
    None
}

/// The headers of a request, the same for all endpoints: who sends it, what it
/// is charged to, and the headers that the caller passes through. A token that
/// cannot be sent is an error, and so may be more headers than
/// [`MAX_HEADER_NAMES`]; nothing else is.
pub fn build_headers(
    method: &str,
    access_token: &str,
    egress: &Egress,
    project: Option<&str>,
    extra: &Vec<(String, String)>,
) -> (r: Result<HeaderMap, String>)
    ensures
        match r {
            Ok(m) => header_value_ok("Bearer "@ + access_token@) && header_contents(m)
                == request_headers(
                method@,
                access_token@,
                *egress,
                opt_str_text(project),
                extra@,
            ),
            Err(e) => if header_value_ok("Bearer "@ + access_token@) {
                e@ == "max size reached"@ && given_headers(
                    method@,
                    access_token@,
                    *egress,
                    opt_str_text(project),
                    extra@,
                ).dom().len() > MAX_HEADER_NAMES
            } else {
                e@ == "failed to parse header value"@
            },
        },
{
    let bearer = join2("Bearer ", access_token);
    check_header_value(bearer.as_str())?;
    let user_agent = usable_user_agent(egress.user_agent.as_str());
    proof {
        lemma_plain_values();
    }
    let mut m = header_map_new();
    put_own(&mut m, "content-type", "application/json", Ghost(0));
    put_own(&mut m, "authorization", bearer.as_str(), Ghost(1));
    put_own(&mut m, "user-agent", user_agent, Ghost(2));
    put_own(&mut m, "x-client-name", "antigravity", Ghost(3));
    put_own_if_ok(&mut m, "x-client-version", egress.client_version.as_str(), Ghost(4));
    if let Some(id) = &egress.machine_id {
        put_own_if_ok(&mut m, "x-machine-id", id.as_str(), Ghost(5));
    }
    match find_value(extra, "x-session-id") {
        Some(id) => {
            let session = derive_session_uuid(id);
            put_own_if_ok(&mut m, "x-vscode-sessionid", session.as_str(), Ghost(6));
        },
        None => {
            put_own_if_ok(&mut m, "x-vscode-sessionid", egress.session_id.as_str(), Ghost(6));
        },
    }
    let content = is_content_request(method);
    if let Some(p) = project {
        if !content && !p.is_empty() && !str_eq(p, "test-project") && !str_eq(p, "project-id") {
            put_own_if_ok(&mut m, PROJECT_HEADER, p, Ghost(7));
        }
    }
    pass_through(&mut m, extra)?;
    if content {
        proof {
            lemma_own_name(PROJECT_HEADER@);
        }
        header_remove(&mut m, PROJECT_HEADER);
    }
    Ok(m)
}

proof fn lemma_plain_values()
    ensures
        header_value_ok("application/json"@),
        header_value_ok("antigravity"@),
{
    reveal_strlit("application/json");
    reveal_strlit("antigravity");
}

/// Sets the headers that are passed through, one after another.
fn pass_through(m: &mut HeaderMap, extra: &Vec<(String, String)>) -> (r: Result<(), String>)
    requires
        header_contents(*old(m)).dom().finite(),
    ensures
        r is Ok ==> header_contents(*final(m)) == with_extra(header_contents(*old(m)), extra@),
        r matches Err(e) ==> e@ == "max size reached"@ && with_extra(
            header_contents(*old(m)),
            extra@,
        ).dom().len() > MAX_HEADER_NAMES,
{
    let mut i: usize = 0;
    assert(extra@.take(0) =~= Seq::<(String, String)>::empty());
    while i < extra.len()
        invariant
            i <= extra.len(),
            header_contents(*old(m)).dom().finite(),
            header_contents(*m) == with_extra(header_contents(*old(m)), extra@.take(i as int)),
        decreases extra.len() - i,
    {
        let name = extra[i].0.as_str();
        let value = extra[i].1.as_str();
        assert(extra@.take(i + 1).drop_last() =~= extra@.take(i as int));
        assert(extra@.take(i + 1).last() == extra@[i as int]);
        if !eq_ignore_ascii_case(name, "user-agent") {
            if is_header_name(name) {
                if check_header_value(value).is_ok() {
                    proof {
                        lemma_names_grow(header_contents(*old(m)), extra@, i as int);
                    }
                    header_insert(m, name, value)?;
                }
            }
        }
        i = i + 1;
    }
    assert(extra@.take(i as int) =~= extra@);
    Ok(())
}

/// Passing more headers through takes no name away, and each adds one at most.
proof fn lemma_names_grow(m: Map<Seq<char>, Seq<u8>>, extra: Seq<(String, String)>, i: int)
    requires
        m.dom().finite(),
        0 <= i <= extra.len(),
    ensures
        with_extra(m, extra).dom().finite(),
        with_extra(m, extra.take(i)).dom().len() <= with_extra(m, extra).dom().len(),
        with_extra(m, extra).dom().len() <= m.dom().len() + extra.len(),
    decreases extra.len(),
{
    if i < extra.len() {
        assert(extra.drop_last().take(i) =~= extra.take(i));
        lemma_names_grow(m, extra.drop_last(), i);
    } else {
        assert(extra.take(i) =~= extra);
        if extra.len() > 0 {
            lemma_names_grow(m, extra.drop_last(), 0);
        }
    }
}

// ----- Laws -----

proof fn lemma_few_own_names(
    method: Seq<char>,
    token: Seq<char>,
    egress: Egress,
    project: Option<Seq<char>>,
    session: Seq<char>,
)
    ensures
        at_most(with_project(identity_headers(token, egress, session), method, project), 8),
{
}

/// As long as the headers that are passed through and the eight of this program
/// are no more than [`MAX_HEADER_NAMES`], there are never too many.
pub proof fn law_few_headers_fit(
    method: Seq<char>,
    token: Seq<char>,
    egress: Egress,
    project: Option<Seq<char>>,
    extra: Seq<(String, String)>,
)
    requires
        extra.len() + 8 <= MAX_HEADER_NAMES,
    ensures
        given_headers(method, token, egress, project, extra).dom().len() <= MAX_HEADER_NAMES,
{
    let session = session_of(extra, egress.session_id@);
    lemma_few_own_names(method, token, egress, project, session);
    lemma_names_grow(
        with_project(identity_headers(token, egress, session), method, project),
        extra,
        0,
    );
}

/// A header of this name is passed through.
pub open spec fn overridden(extra: Seq<(String, String)>, name: Seq<char>) -> bool {
    exists|i: int|
        0 <= i < extra.len() && passes(#[trigger] extra[i]) && ascii_lower_all(extra[i].0@) == name
}

proof fn lemma_extra_keeps(
    m: Map<Seq<char>, Seq<u8>>,
    extra: Seq<(String, String)>,
    name: Seq<char>,
)
    requires
        !overridden(extra, name),
    ensures
        with_extra(m, extra).contains_key(name) == m.contains_key(name),
        m.contains_key(name) ==> with_extra(m, extra)[name] == m[name],
    decreases extra.len(),
{
    if extra.len() > 0 {
        let front = extra.drop_last();
        assert(!overridden(front, name)) by {
            assert forall|i: int| 0 <= i < front.len() && passes(#[trigger] front[i]) implies
                ascii_lower_all(front[i].0@) != name by {
                assert(front[i] == extra[i]);
            }
        }
        lemma_extra_keeps(m, front, name);
        assert(extra[extra.len() - 1] == extra.last());
    }
}

proof fn lemma_own_names_differ()
    ensures
        "user-agent"@ != "x-client-name"@,
        "user-agent"@ != "x-client-version"@,
        "user-agent"@ != "x-machine-id"@,
        "user-agent"@ != "x-vscode-sessionid"@,
        "user-agent"@ != PROJECT_HEADER@,
        "x-vscode-sessionid"@ != PROJECT_HEADER@,
        "x-vscode-sessionid"@ != "content-type"@,
        "x-vscode-sessionid"@ != "authorization"@,
        "x-vscode-sessionid"@ != "x-client-name"@,
        "x-vscode-sessionid"@ != "x-client-version"@,
        "x-vscode-sessionid"@ != "x-machine-id"@,
        "content-type"@ != PROJECT_HEADER@,
        "authorization"@ != PROJECT_HEADER@,
        "x-client-name"@ != PROJECT_HEADER@,
        "x-client-version"@ != PROJECT_HEADER@,
        "x-machine-id"@ != PROJECT_HEADER@,
{
    reveal_strlit("content-type");
    reveal_strlit("authorization");
    reveal_strlit("user-agent");
    reveal_strlit("x-client-name");
    reveal_strlit("x-client-version");
    reveal_strlit("x-machine-id");
    reveal_strlit("x-vscode-sessionid");
    reveal_strlit("x-goog-user-project");
    assert("user-agent"@[0] == 'u' && "content-type"@[0] == 'c' && "authorization"@[0] == 'a');
    assert("x-client-name"@[0] == 'x' && "x-client-version"@[0] == 'x');
    assert("x-machine-id"@[0] == 'x' && "x-vscode-sessionid"@[0] == 'x');
    assert(PROJECT_HEADER@[0] == 'x' && PROJECT_HEADER@[2] == 'g');
    assert("x-client-name"@[2] == 'c' && "x-client-version"@[2] == 'c');
    assert("x-machine-id"@[2] == 'm' && "x-vscode-sessionid"@[2] == 'v');
}

/// No caller can change the user agent: whatever headers are passed through, the
/// request carries this program's own, or the fallback where that cannot be sent.
pub proof fn law_user_agent_is_never_passed_through(
    method: Seq<char>,
    token: Seq<char>,
    egress: Egress,
    project: Option<Seq<char>>,
    extra: Seq<(String, String)>,
)
    ensures
        request_headers(method, token, egress, project, extra).contains_key("user-agent"@),
        request_headers(method, token, egress, project, extra)["user-agent"@] == encode_utf8(
            sendable_user_agent(egress.user_agent@),
        ),
{
    lemma_own_names_differ();
    lemma_own_name("user-agent"@);
    assert(!overridden(extra, "user-agent"@));
    let m = identity_headers(token, egress, session_of(extra, egress.session_id@));
    lemma_extra_keeps(with_project(m, method, project), extra, "user-agent"@);
}

/// Where the caller passes no session header through, a request that names its
/// conversation in `x-session-id` carries the identifier that belongs to that
/// name; any other carries the session of this program, if that can be sent.
pub proof fn law_session_of_the_conversation_is_sent(
    method: Seq<char>,
    token: Seq<char>,
    egress: Egress,
    project: Option<Seq<char>>,
    extra: Seq<(String, String)>,
)
    requires
        !overridden(extra, "x-vscode-sessionid"@),
    ensures
        ({
            let m = request_headers(method, token, egress, project, extra);
            match value_of(extra, "x-session-id"@) {
                Some(id) => m.contains_key("x-vscode-sessionid"@) && m["x-vscode-sessionid"@]
                    == encode_utf8(session_uuid(id)),
                None => if header_value_ok(egress.session_id@) {
                    m.contains_key("x-vscode-sessionid"@) && m["x-vscode-sessionid"@]
                        == encode_utf8(egress.session_id@)
                } else {
                    !m.contains_key("x-vscode-sessionid"@)
                },
            }
        }),
{
    lemma_own_names_differ();
    let m = identity_headers(token, egress, session_of(extra, egress.session_id@));
    lemma_extra_keeps(with_project(m, method, project), extra, "x-vscode-sessionid"@);
    match value_of(extra, "x-session-id"@) {
        Some(id) => lemma_session_can_be_sent(id),
        None => {},
    }
}

/// Two requests of one conversation carry the same session, whatever else they
/// differ in.
pub proof fn law_one_conversation_one_session(
    method: Seq<char>,
    token: Seq<char>,
    egress: Egress,
    project: Option<Seq<char>>,
    extra: Seq<(String, String)>,
    method2: Seq<char>,
    token2: Seq<char>,
    egress2: Egress,
    project2: Option<Seq<char>>,
    extra2: Seq<(String, String)>,
)
    requires
        !overridden(extra, "x-vscode-sessionid"@),
        !overridden(extra2, "x-vscode-sessionid"@),
        value_of(extra, "x-session-id"@) is Some,
        value_of(extra, "x-session-id"@) == value_of(extra2, "x-session-id"@),
    ensures
        request_headers(method, token, egress, project, extra).contains_key("x-vscode-sessionid"@),
        request_headers(method2, token2, egress2, project2, extra2).contains_key(
            "x-vscode-sessionid"@,
        ),
        request_headers(method, token, egress, project, extra)["x-vscode-sessionid"@]
            == request_headers(method2, token2, egress2, project2, extra2)["x-vscode-sessionid"@],
{
    law_session_of_the_conversation_is_sent(method, token, egress, project, extra);
    law_session_of_the_conversation_is_sent(method2, token2, egress2, project2, extra2);
}

proof fn lemma_session_can_be_sent(id: Seq<char>)
    ensures
        header_value_ok(session_uuid(id)),
{
    law_session_id_is_a_uuid(
        sha256_digest(encode_utf8(SESSION_PREFIX@) + encode_utf8(id)),
    );
    let s = session_uuid(id);
    assert forall|i: int| 0 <= i < s.len() implies #[trigger] s[i] == '\t' || (s[i] >= ' ' && s[i]
        != '\u{7f}') by {
        if i != 8 && i != 13 && i != 18 && i != 23 {
            assert(is_hex(s[i]));
        }
    }
}

/// A request for content never carries the project header, not even where the
/// caller passes one through.
pub proof fn law_content_goes_without_project(
    method: Seq<char>,
    token: Seq<char>,
    egress: Egress,
    project: Option<Seq<char>>,
    extra: Seq<(String, String)>,
)
    requires
        is_content_method(method),
    ensures
        !request_headers(method, token, egress, project, extra).contains_key(PROJECT_HEADER@),
{
}

/// Any other request carries the project that its body names, if it is no
/// placeholder and can be sent, and else none, unless the caller passes one through.
pub proof fn law_project_comes_from_the_body(
    method: Seq<char>,
    token: Seq<char>,
    egress: Egress,
    project: Option<Seq<char>>,
    extra: Seq<(String, String)>,
)
    requires
        !is_content_method(method),
        !overridden(extra, PROJECT_HEADER@),
    ensures
        match project {
            Some(p) if is_real_project(p) && header_value_ok(p) => {
                &&& request_headers(method, token, egress, project, extra).contains_key(
                    PROJECT_HEADER@,
                )
                &&& request_headers(method, token, egress, project, extra)[PROJECT_HEADER@]
                    == encode_utf8(p)
            },
            _ => !request_headers(method, token, egress, project, extra).contains_key(
                PROJECT_HEADER@,
            ),
        },
{
    lemma_own_names_differ();
    let m = identity_headers(token, egress, session_of(extra, egress.session_id@));
    lemma_extra_keeps(with_project(m, method, project), extra, PROJECT_HEADER@);
}

// ----- What a request carries -----

/// The names of this program's headers all differ.
proof fn lemma_all_names_differ()
    ensures
        "content-type"@ != "authorization"@,
        "content-type"@ != "user-agent"@,
        "content-type"@ != "x-client-name"@,
        "content-type"@ != "x-client-version"@,
        "content-type"@ != "x-machine-id"@,
        "authorization"@ != "user-agent"@,
        "authorization"@ != "x-client-name"@,
        "authorization"@ != "x-client-version"@,
        "authorization"@ != "x-machine-id"@,
        "x-client-name"@ != "x-client-version"@,
        "x-client-name"@ != "x-machine-id"@,
        "x-client-version"@ != "x-machine-id"@,
{
    reveal_strlit("content-type");
    reveal_strlit("authorization");
    reveal_strlit("user-agent");
    reveal_strlit("x-client-name");
    reveal_strlit("x-client-version");
    reveal_strlit("x-machine-id");
    assert("user-agent"@[0] == 'u' && "content-type"@[0] == 'c' && "authorization"@[0] == 'a');
    assert("x-client-name"@[0] == 'x' && "x-client-version"@[0] == 'x');
    assert("x-machine-id"@[0] == 'x' && "x-machine-id"@[2] == 'm');
    assert("x-client-name"@[2] == 'c' && "x-client-version"@[2] == 'c');
    assert("x-client-name"@.len() != "x-client-version"@.len());
}

/// A header that no header passed through replaces stays.
proof fn lemma_own_header_stays(
    m: Map<Seq<char>, Seq<u8>>,
    extra: Seq<(String, String)>,
    name: Seq<char>,
)
    requires
        forall|i: int|
            0 <= i < extra.len() ==> !(ascii_lower_all((#[trigger] extra[i]).0@) == name
                && header_value_ok(extra[i].1@)),
    ensures
        with_extra(m, extra).contains_key(name) == m.contains_key(name),
        m.contains_key(name) ==> with_extra(m, extra)[name] == m[name],
{
    assert(!overridden(extra, name)) by {
        assert forall|i: int| 0 <= i < extra.len() && passes(#[trigger] extra[i]) implies
            ascii_lower_all(extra[i].0@) != name by {}
    }
    lemma_extra_keeps(m, extra, name);
}

/// The token is sent whole: unless the caller passes an authorization through, a request
/// carries under that name the word `Bearer`, a space and all of the token. The body is
/// announced as JSON.
pub proof fn law_token_is_sent_whole(
    method: &str,
    access_token: &str,
    egress: &Egress,
    project: Option<&str>,
    extra: &Vec<(String, String)>,
    map: HeaderMap,
)
    requires
        call_ensures(
            build_headers,
            (method, access_token, egress, project, extra),
            Ok::<HeaderMap, String>(map),
        ),
    ensures
        (forall|i: int|
            0 <= i < extra.len() ==> !(ascii_lower_all((#[trigger] extra@[i]).0@)
                == "authorization"@ && header_value_ok(extra@[i].1@)))
            ==> header_contents(map).contains_key("authorization"@) && header_contents(
            map,
        )["authorization"@] == encode_utf8("Bearer "@ + access_token@),
        (forall|i: int|
            0 <= i < extra.len() ==> !(ascii_lower_all((#[trigger] extra@[i]).0@)
                == "content-type"@ && header_value_ok(extra@[i].1@)))
            ==> header_contents(map).contains_key("content-type"@) && header_contents(
            map,
        )["content-type"@] == encode_utf8("application/json"@),
{
    lemma_own_names_differ();
    lemma_all_names_differ();
    let m = identity_headers(access_token@, *egress, session_of(extra@, egress.session_id@));
    let p = with_project(m, method@, opt_str_text(project));
    if forall|i: int|
        0 <= i < extra.len() ==> !(ascii_lower_all((#[trigger] extra@[i]).0@) == "authorization"@
            && header_value_ok(extra@[i].1@)) {
        lemma_own_header_stays(p, extra@, "authorization"@);
    }
    if forall|i: int|
        0 <= i < extra.len() ==> !(ascii_lower_all((#[trigger] extra@[i]).0@) == "content-type"@
            && header_value_ok(extra@[i].1@)) {
        lemma_own_header_stays(p, extra@, "content-type"@);
    }
}

/// The user agent is this program's own wherever it can be the value of a header, and
/// `antigravity` where it cannot, whatever the caller passes through.
pub proof fn law_user_agent_of_requests(
    method: &str,
    access_token: &str,
    egress: &Egress,
    project: Option<&str>,
    extra: &Vec<(String, String)>,
    map: HeaderMap,
)
    requires
        call_ensures(
            build_headers,
            (method, access_token, egress, project, extra),
            Ok::<HeaderMap, String>(map),
        ),
    ensures
        header_contents(map).contains_key("user-agent"@),
        header_value_ok(egress.user_agent@) ==> header_contents(map)["user-agent"@]
            == encode_utf8(egress.user_agent@),
        !header_value_ok(egress.user_agent@) ==> header_contents(map)["user-agent"@]
            == encode_utf8("antigravity"@),
{
    law_user_agent_is_never_passed_through(
        method@,
        access_token@,
        *egress,
        opt_str_text(project),
        extra@,
    );
}

/// Unless the caller passes such headers through, a request carries the name of the
/// client, its version and the identity of the machine; the latter two wherever they are
/// known and can be sent, and else not at all.
pub proof fn law_client_is_named(
    method: &str,
    access_token: &str,
    egress: &Egress,
    project: Option<&str>,
    extra: &Vec<(String, String)>,
    map: HeaderMap,
)
    requires
        call_ensures(
            build_headers,
            (method, access_token, egress, project, extra),
            Ok::<HeaderMap, String>(map),
        ),
        forall|i: int|
            0 <= i < extra.len() ==> !((ascii_lower_all((#[trigger] extra@[i]).0@)
                == "x-client-name"@ || ascii_lower_all(extra@[i].0@) == "x-client-version"@
                || ascii_lower_all(extra@[i].0@) == "x-machine-id"@) && header_value_ok(
                extra@[i].1@,
            )),
    ensures
        header_contents(map).contains_key("x-client-name"@),
        header_contents(map)["x-client-name"@] == encode_utf8("antigravity"@),
        header_contents(map).contains_key("x-client-version"@) <==> header_value_ok(
            egress.client_version@,
        ),
        header_value_ok(egress.client_version@) ==> header_contents(map)["x-client-version"@]
            == encode_utf8(egress.client_version@),
        header_contents(map).contains_key("x-machine-id"@) <==> (egress.machine_id matches Some(
            id,
        ) && header_value_ok(id@)),
        egress.machine_id matches Some(id) ==> header_value_ok(id@) ==> header_contents(
            map,
        )["x-machine-id"@] == encode_utf8(id@),
{
    lemma_own_names_differ();
    lemma_all_names_differ();
    let m = identity_headers(access_token@, *egress, session_of(extra@, egress.session_id@));
    let p = with_project(m, method@, opt_str_text(project));
    lemma_own_header_stays(p, extra@, "x-client-name"@);
    lemma_own_header_stays(p, extra@, "x-client-version"@);
    lemma_own_header_stays(p, extra@, "x-machine-id"@);
}

/// The first header of exactly this name.
proof fn lemma_value_of(extra: Seq<(String, String)>, name: Seq<char>, k: int)
    requires
        0 <= k <= extra.len(),
        forall|i: int| 0 <= i < k ==> (#[trigger] extra[i]).0@ != name,
        k < extra.len() ==> extra[k].0@ == name,
    ensures
        k < extra.len() ==> value_of(extra, name) == Some(extra[k].1@),
        k == extra.len() ==> value_of(extra, name) is None,
    decreases extra.len(),
{
    if extra.len() > 0 {
        if k > 0 {
            let rest = extra.drop_first();
            assert forall|i: int| 0 <= i < k - 1 implies (#[trigger] rest[i]).0@ != name by {
                assert(rest[i] == extra[i + 1]);
            }
            assert(extra[0].0@ != name);
            lemma_value_of(rest, name, k - 1);
            if k < extra.len() {
                assert(rest[k - 1] == extra[k]);
            }
        }
    }
}

/// Unless the caller passes a session header through, a request carries the session that
/// belongs to the first header named exactly `x-session-id`; where there is none, the
/// session of this program, if that can be sent, and else no session. `k` is the place of
/// that header, or the number of headers.
pub proof fn law_session_of_requests(
    method: &str,
    access_token: &str,
    egress: &Egress,
    project: Option<&str>,
    extra: &Vec<(String, String)>,
    k: int,
    map: HeaderMap,
)
    requires
        call_ensures(
            build_headers,
            (method, access_token, egress, project, extra),
            Ok::<HeaderMap, String>(map),
        ),
        forall|i: int|
            0 <= i < extra.len() ==> !(ascii_lower_all((#[trigger] extra@[i]).0@)
                == "x-vscode-sessionid"@ && header_value_ok(extra@[i].1@)),
        0 <= k <= extra.len(),
        forall|i: int| 0 <= i < k ==> (#[trigger] extra@[i]).0@ != "x-session-id"@,
        k < extra.len() ==> extra@[k].0@ == "x-session-id"@,
    ensures
        k < extra.len() ==> header_contents(map).contains_key("x-vscode-sessionid"@)
            && header_contents(map)["x-vscode-sessionid"@] == encode_utf8(
            session_uuid(extra@[k].1@),
        ),
        k == extra.len() ==> (header_contents(map).contains_key("x-vscode-sessionid"@)
            <==> header_value_ok(egress.session_id@)),
        k == extra.len() && header_value_ok(egress.session_id@) ==> header_contents(
            map,
        )["x-vscode-sessionid"@] == encode_utf8(egress.session_id@),
{
    lemma_value_of(extra@, "x-session-id"@, k);
    assert(!overridden(extra@, "x-vscode-sessionid"@)) by {
        assert forall|i: int| 0 <= i < extra@.len() && passes(#[trigger] extra@[i]) implies
            ascii_lower_all(extra@[i].0@) != "x-vscode-sessionid"@ by {}
    }
    law_session_of_the_conversation_is_sent(
        method@,
        access_token@,
        *egress,
        opt_str_text(project),
        extra@,
    );
}

/// Content is never charged to a project. Unless the caller passes a project through,
/// every other request is charged to the project that its body names, if that is neither
/// empty nor a placeholder and can be sent, and else to none.
pub proof fn law_project_of_requests(
    method: &str,
    access_token: &str,
    egress: &Egress,
    project: Option<&str>,
    extra: &Vec<(String, String)>,
    map: HeaderMap,
)
    requires
        call_ensures(
            build_headers,
            (method, access_token, egress, project, extra),
            Ok::<HeaderMap, String>(map),
        ),
        forall|i: int|
            0 <= i < extra.len() ==> !(ascii_lower_all((#[trigger] extra@[i]).0@)
                == "x-goog-user-project"@ && header_value_ok(extra@[i].1@)),
    ensures
        header_contents(map).contains_key("x-goog-user-project"@) <==> {
            &&& method@ != "generateContent"@ && method@ != "streamGenerateContent"@
            &&& project matches Some(p) && p@.len() > 0 && p@ != "test-project"@ && p@
                != "project-id"@ && header_value_ok(p@)
        },
        header_contents(map).contains_key("x-goog-user-project"@) ==> header_contents(
            map,
        )["x-goog-user-project"@] == encode_utf8((project->0)@),
{
    lemma_own_names_differ();
    let m = identity_headers(access_token@, *egress, session_of(extra@, egress.session_id@));
    lemma_own_header_stays(
        with_project(m, method@, opt_str_text(project)),
        extra@,
        "x-goog-user-project"@,
    );
}

/// No header that the caller passes through makes a request for content carry a project.
pub proof fn law_content_is_charged_to_no_project(
    method: &str,
    access_token: &str,
    egress: &Egress,
    project: Option<&str>,
    extra: &Vec<(String, String)>,
    map: HeaderMap,
)
    requires
        call_ensures(
            build_headers,
            (method, access_token, egress, project, extra),
            Ok::<HeaderMap, String>(map),
        ),
        method@ == "generateContent"@ || method@ == "streamGenerateContent"@,
    ensures
        !header_contents(map).contains_key("x-goog-user-project"@),
{
}

proof fn lemma_last_one_wins(
    m: Map<Seq<char>, Seq<u8>>,
    extra: Seq<(String, String)>,
    i: int,
)
    requires
        0 <= i < extra.len(),
        passes(extra[i]),
        forall|j: int|
            i < j < extra.len() ==> !(passes(#[trigger] extra[j]) && ascii_lower_all(extra[j].0@)
                == ascii_lower_all(extra[i].0@)),
    ensures
        with_extra(m, extra).contains_key(ascii_lower_all(extra[i].0@)),
        with_extra(m, extra)[ascii_lower_all(extra[i].0@)] == encode_utf8(extra[i].1@),
    decreases extra.len(),
{
    if i < extra.len() - 1 {
        let front = extra.drop_last();
        assert(front[i] == extra[i]);
        assert forall|j: int| i < j < front.len() implies !(passes(#[trigger] front[j])
            && ascii_lower_all(front[j].0@) == ascii_lower_all(front[i].0@)) by {
            assert(front[j] == extra[j]);
        }
        lemma_last_one_wins(m, front, i);
        assert(extra[extra.len() - 1] == extra.last());
    }
}

/// What the caller passes through arrives: a header whose name and value can be sent is
/// carried with its whole value, whatever this program would send under that name. It is
/// not where it names the user agent, a later one has the same name, or it would charge
/// content to a project. Names count without their case.
pub proof fn law_headers_are_passed_through(
    method: &str,
    access_token: &str,
    egress: &Egress,
    project: Option<&str>,
    extra: &Vec<(String, String)>,
    i: int,
    map: HeaderMap,
)
    requires
        call_ensures(
            build_headers,
            (method, access_token, egress, project, extra),
            Ok::<HeaderMap, String>(map),
        ),
        0 <= i < extra.len(),
        header_name_ok(extra@[i].0@),
        header_value_ok(extra@[i].1@),
        ascii_lower_all(extra@[i].0@) != "user-agent"@,
        ascii_lower_all(extra@[i].0@) == "x-goog-user-project"@ ==> method@ != "generateContent"@
            && method@ != "streamGenerateContent"@,
        forall|j: int|
            i < j < extra.len() ==> !(ascii_lower_all((#[trigger] extra@[j]).0@)
                == ascii_lower_all(extra@[i].0@) && header_value_ok(extra@[j].1@)),
    ensures
        header_contents(map).contains_key(ascii_lower_all(extra@[i].0@)),
        header_contents(map)[ascii_lower_all(extra@[i].0@)] == encode_utf8(extra@[i].1@),
{
    lemma_own_name("user-agent"@);
    let m = identity_headers(access_token@, *egress, session_of(extra@, egress.session_id@));
    lemma_last_one_wins(with_project(m, method@, opt_str_text(project)), extra@, i);
}

proof fn lemma_no_other_names(
    m: Map<Seq<char>, Seq<u8>>,
    extra: Seq<(String, String)>,
    name: Seq<char>,
)
    requires
        with_extra(m, extra).contains_key(name),
        !m.contains_key(name),
    ensures
        exists|i: int|
            0 <= i < extra.len() && ascii_lower_all((#[trigger] extra[i]).0@) == name && passes(
                extra[i],
            ),
    decreases extra.len(),
{
    if extra.len() > 0 {
        let last = extra.len() - 1;
        if passes(extra[last]) && ascii_lower_all(extra[last].0@) == name {
        } else {
            let front = extra.drop_last();
            assert(extra[last] == extra.last());
            lemma_no_other_names(m, front, name);
            let i = choose|i: int|
                0 <= i < front.len() && ascii_lower_all((#[trigger] front[i]).0@) == name
                    && passes(front[i]);
            assert(extra[i] == front[i]);
        }
    }
}

/// A request carries nothing else: each of its headers is one of the eight of this
/// program or was passed through, and then it can be sent and is not the user agent.
pub proof fn law_nothing_else_is_sent(
    method: &str,
    access_token: &str,
    egress: &Egress,
    project: Option<&str>,
    extra: &Vec<(String, String)>,
    name: Seq<char>,
    map: HeaderMap,
)
    requires
        call_ensures(
            build_headers,
            (method, access_token, egress, project, extra),
            Ok::<HeaderMap, String>(map),
        ),
        header_contents(map).contains_key(name),
        name != "content-type"@ && name != "authorization"@ && name != "user-agent"@,
        name != "x-client-name"@ && name != "x-client-version"@ && name != "x-machine-id"@,
        name != "x-vscode-sessionid"@ && name != "x-goog-user-project"@,
    ensures
        exists|i: int|
            0 <= i < extra.len() && ascii_lower_all((#[trigger] extra@[i]).0@) == name
                && header_name_ok(extra@[i].0@) && header_value_ok(extra@[i].1@),
{
    let m = identity_headers(access_token@, *egress, session_of(extra@, egress.session_id@));
    let p = with_project(m, method@, opt_str_text(project));
    lemma_no_other_names(p, extra@, name);
    let i = choose|i: int|
        0 <= i < extra@.len() && ascii_lower_all((#[trigger] extra@[i]).0@) == name && passes(
            extra@[i],
        );
    assert(passes(extra@[i]));
}

/// A token that can be sent is never refused, as long as the headers fit; one that
/// cannot be sent always is.
pub proof fn law_which_tokens_are_refused(
    method: &str,
    access_token: &str,
    egress: &Egress,
    project: Option<&str>,
    extra: &Vec<(String, String)>,
    r: Result<HeaderMap, String>,
)
    requires
        call_ensures(build_headers, (method, access_token, egress, project, extra), r),
        extra.len() <= 6545,
    ensures
        r is Ok <==> header_value_ok("Bearer "@ + access_token@),
        r matches Err(e) ==> e@ == "failed to parse header value"@,
{
    law_few_headers_fit(method@, access_token@, *egress, opt_str_text(project), extra@);
}

/// A user agent is used as it is wherever it can be sent, and else `antigravity` is; the
/// methods that create content are the two that do.
pub proof fn law_user_agents_and_methods(ua: &str, method: &str, used: &str, content: bool)
    requires
        call_ensures(usable_user_agent, (ua,), used),
        call_ensures(is_content_request, (method,), content),
    ensures
        header_value_ok(ua@) ==> used@ == ua@,
        !header_value_ok(ua@) ==> used@ == "antigravity"@,
        content <==> method@ == "generateContent"@ || method@ == "streamGenerateContent"@,
{
}

} // verus!
