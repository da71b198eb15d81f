//! REST requests as data: methods, bodies, authentication and what
//! authentication adds to a request. Sending is outside the library.
use vstd::prelude::*;
use crate::strmap::StrMap;
use crate::json::{json_from_bytes, parse_json_bytes, JsonValue};
use crate::text::{
    ascii_lower, ascii_lower_char, ascii_upper, ascii_upper_text, is_ascii_text, owned, str_eq, to_uppercase,
    uppercase,
};

verus! {

/// HTTP method.
#[derive(Debug, Clone, Copy, PartialEq, Eq, Structural)]
pub enum HTTPMethod {
    GET,
    POST,
    PUT,
    DELETE,
    PATCH,
    HEAD,
    OPTIONS,
}

/// The name of a method.
pub open spec fn method_name(m: HTTPMethod) -> Seq<char> {
    match m {
        HTTPMethod::GET => "GET"@,
        HTTPMethod::POST => "POST"@,
        HTTPMethod::PUT => "PUT"@,
        HTTPMethod::DELETE => "DELETE"@,
        HTTPMethod::PATCH => "PATCH"@,
        HTTPMethod::HEAD => "HEAD"@,
        HTTPMethod::OPTIONS => "OPTIONS"@,
    }
}

/// The method an upper-cased name names; other names are GET.
pub open spec fn method_of_upper(u: Seq<char>) -> HTTPMethod {
    if u == "POST"@ { HTTPMethod::POST }
    else if u == "PUT"@ { HTTPMethod::PUT }
    else if u == "DELETE"@ { HTTPMethod::DELETE }
    else if u == "PATCH"@ { HTTPMethod::PATCH }
    else if u == "HEAD"@ { HTTPMethod::HEAD }
    else if u == "OPTIONS"@ { HTTPMethod::OPTIONS }
    else { HTTPMethod::GET }
}

impl HTTPMethod {
    /// The method's name.
    pub fn as_str(&self) -> (s: &'static str)
        ensures s@ == method_name(*self),
    {
        match self {
            HTTPMethod::GET => "GET",
            HTTPMethod::POST => "POST",
            HTTPMethod::PUT => "PUT",
            HTTPMethod::DELETE => "DELETE",
            HTTPMethod::PATCH => "PATCH",
            HTTPMethod::HEAD => "HEAD",
            HTTPMethod::OPTIONS => "OPTIONS",
        }
    }

    /// The method a name names, in any case; unknown names are GET. See
    /// `method_of_text`.
    pub fn from(s: &str) -> (m: Self)
        ensures m == method_of_text(s@),
    {
        let u = match ascii_upper_text(s) {
            Some(u) => u,
            None => to_uppercase(s),
        };
        let u = u.as_str();
        if str_eq(u, "POST") { HTTPMethod::POST }
        else if str_eq(u, "PUT") { HTTPMethod::PUT }
        else if str_eq(u, "DELETE") { HTTPMethod::DELETE }
        else if str_eq(u, "PATCH") { HTTPMethod::PATCH }
        else if str_eq(u, "HEAD") { HTTPMethod::HEAD }
        else if str_eq(u, "OPTIONS") { HTTPMethod::OPTIONS }
        else { HTTPMethod::GET }
    }
}

/// The method a name names once upper-cased (unknown names are GET). An ASCII
/// name is upper-cased letter by letter, which is what `str::to_uppercase`
/// does to ASCII; any other name as `str::to_uppercase` does.
pub open spec fn method_of_text(t: Seq<char>) -> HTTPMethod {
    if is_ascii_text(t) {
        method_of_upper(ascii_upper(t))
    } else {
        method_of_upper(uppercase(t))
    }
}

proof fn lemma_upper_name(s: Seq<char>)
    requires forall|i: int| 0 <= i < s.len() ==> 'A' <= #[trigger] s[i] && s[i] <= 'Z',
    ensures
        is_ascii_text(s),
        ascii_upper(s) == s,
        is_ascii_text(ascii_lower(s)),
        ascii_upper(ascii_lower(s)) == s,
{
    assert(ascii_upper(s) =~= s);
    assert forall|i: int| 0 <= i < s.len() implies (ascii_lower(s)[i] as u32) < 128 by {
        assert('A' <= s[i] && s[i] <= 'Z');
    }
    assert forall|i: int| 0 <= i < s.len() implies #[trigger] ascii_upper(ascii_lower(s))[i] == s[i] by {
        assert('A' <= s[i] && s[i] <= 'Z');
        assert(ascii_lower(s)[i] == ascii_lower_char(s[i]));
        assert(((((s[i] as u32) + 32) as char) as u32) - 32 == s[i] as u32);
    }
    assert(ascii_upper(ascii_lower(s)) =~= s);
}

/// A method's name names the method again, and so does that name in lower
/// case.
pub proof fn law_method_name_round_trip(m: HTTPMethod)
    ensures
        method_of_text(method_name(m)) == m,
        method_of_text(ascii_lower(method_name(m))) == m,
{
    reveal_strlit("GET");
    reveal_strlit("POST");
    reveal_strlit("PUT");
    reveal_strlit("DELETE");
    reveal_strlit("PATCH");
    reveal_strlit("HEAD");
    reveal_strlit("OPTIONS");
    let s = method_name(m);
    assert forall|i: int| 0 <= i < s.len() implies 'A' <= #[trigger] s[i] && s[i] <= 'Z' by {
        match m {
            HTTPMethod::GET => {},
            HTTPMethod::POST => {},
            HTTPMethod::PUT => {},
            HTTPMethod::DELETE => {},
            HTTPMethod::PATCH => {},
            HTTPMethod::HEAD => {},
            HTTPMethod::OPTIONS => {},
        }
    }
    lemma_upper_name(s);
    match m {
        HTTPMethod::GET => {
            assert(s.len() != "POST"@.len());
            assert(s[0] != "PUT"@[0]);
            assert(s.len() != "DELETE"@.len());
            assert(s.len() != "PATCH"@.len());
            assert(s.len() != "HEAD"@.len());
            assert(s.len() != "OPTIONS"@.len());
        },
        HTTPMethod::POST => {},
        HTTPMethod::PUT => {
            assert(s.len() != "POST"@.len());
        },
        HTTPMethod::DELETE => {
            assert(s.len() != "POST"@.len());
            assert(s.len() != "PUT"@.len());
        },
        HTTPMethod::PATCH => {
            assert(s.len() != "POST"@.len());
            assert(s.len() != "PUT"@.len());
            assert(s.len() != "DELETE"@.len());
        },
        HTTPMethod::HEAD => {
            assert(s[0] != "POST"@[0]);
            assert(s.len() != "PUT"@.len());
            assert(s.len() != "DELETE"@.len());
            assert(s.len() != "PATCH"@.len());
        },
        HTTPMethod::OPTIONS => {
            assert(s.len() != "POST"@.len());
            assert(s.len() != "PUT"@.len());
            assert(s.len() != "DELETE"@.len());
            assert(s.len() != "PATCH"@.len());
            assert(s.len() != "HEAD"@.len());
        },
    }
}

/// GraphQL body. Variables are JSON text.
#[derive(Debug)]
pub struct GraphQLBody {
    pub query: String,
    pub variables: Option<String>,
    pub operation_name: Option<String>,
}

/// Multipart field.
#[derive(Debug)]
pub struct MultipartField {
    pub name: String,
    pub filename: Option<String>,
    pub content_type: Option<String>,
    pub data: Vec<u8>,
}

/// Request body. JSON bodies are JSON text in compact form.
#[derive(Debug)]
pub enum RequestBody {
    JSON(String),
    Text(String),
    Form(StrMap<String>),
    Multipart(Vec<MultipartField>),
    Binary(Vec<u8>),
    GraphQL(GraphQLBody),
}

/// Authentication.
#[derive(Debug)]
pub enum Auth {
    NoAuth,
    Bearer(String),
    Basic { username: String, password: String },
    APIKey { key: String, value: String, in_header: bool },
    OAuth2 { token: String, token_type: String },
}

impl Auth {
    /// A copy of the authentication.
    pub fn duplicate(&self) -> (a: Self)
        ensures a == *self,
    {
        match self {
            Auth::NoAuth => Auth::NoAuth,
            Auth::Bearer(t) => Auth::Bearer(t.clone()),
            Auth::Basic { username, password } => Auth::Basic { username: username.clone(), password: password.clone() },
            Auth::APIKey { key, value, in_header } => Auth::APIKey { key: key.clone(), value: value.clone(), in_header: *in_header },
            Auth::OAuth2 { token, token_type } => Auth::OAuth2 { token: token.clone(), token_type: token_type.clone() },
        }
    }
}

/// What authentication adds to a request.
#[derive(Debug)]
pub enum AuthEffect {
    /// Nothing.
    Nothing,
    /// A bearer token in the Authorization header.
    Bearer(String),
    /// HTTP basic credentials.
    Basic { username: String, password: String },
    /// A header.
    Header(String, String),
    /// A query parameter.
    Query(String, String),
}

/// The effect of an authentication: a key goes in a header or the query, and
/// OAuth2 sends "type token" as the Authorization header.
pub open spec fn auth_effect_spec(a: Auth, e: AuthEffect) -> bool {
    match a {
        Auth::NoAuth => e is Nothing,
        Auth::Bearer(t) => e matches AuthEffect::Bearer(x) && x@ == t@,
        Auth::Basic { username, password } => e matches AuthEffect::Basic { username: u, password: p } && u@ == username@ && p@ == password@,
        Auth::APIKey { key, value, in_header } => if in_header {
            e matches AuthEffect::Header(k, v) && k@ == key@ && v@ == value@
        } else {
            e matches AuthEffect::Query(k, v) && k@ == key@ && v@ == value@
        },
        Auth::OAuth2 { token, token_type } => e matches AuthEffect::Header(k, v)
            && k@ == "Authorization"@ && v@ == token_type@ + " "@ + token@,
    }
}

/// What an authentication adds to a request; see `auth_effect_spec`.
pub fn auth_effect(auth: &Auth) -> (e: AuthEffect)
    ensures auth_effect_spec(*auth, e),
{
    match auth {
        Auth::NoAuth => AuthEffect::Nothing,
        Auth::Bearer(t) => AuthEffect::Bearer(t.clone()),
        Auth::Basic { username, password } => AuthEffect::Basic { username: username.clone(), password: password.clone() },
        Auth::APIKey { key, value, in_header } => {
            if *in_header {
                AuthEffect::Header(key.clone(), value.clone())
            } else {
                AuthEffect::Query(key.clone(), value.clone())
            }
        },
        Auth::OAuth2 { token, token_type } => {
            let mut v = token_type.clone();
            v.append(" ");
            v.append(token.as_str());
            AuthEffect::Header(owned("Authorization"), v)
        },
    }
}

/// The fields of a GraphQL body sent as JSON: the query, the variables (as
/// JSON text) and the operation name, those present.
pub open spec fn graphql_fields(b: GraphQLBody) -> Seq<(Seq<char>, Seq<char>)> {
    let q = seq![("query"@, b.query@)];
    let v = match b.variables { Some(x) => q.push(("variables"@, x@)), None => q };
    match b.operation_name { Some(o) => v.push(("operationName"@, o@)), None => v }
}

/// The fields of a GraphQL body; see `graphql_fields`.
pub fn graphql_body_fields(body: &GraphQLBody) -> (r: Vec<(String, String)>)
    ensures r@.map_values(|p: (String, String)| (p.0@, p.1@)) == graphql_fields(*body),
{
    let mut r: Vec<(String, String)> = Vec::new();
    r.push((owned("query"), body.query.clone()));
    match &body.variables {
        Some(v) => r.push((owned("variables"), v.clone())),
        None => {},
    }
    match &body.operation_name {
        Some(o) => r.push((owned("operationName"), o.clone())),
        None => {},
    }
    assert(r@.map_values(|p: (String, String)| (p.0@, p.1@)) =~= graphql_fields(*body));
    r
}

/// REST request. Headers and parameters are kept in the order first set; the
/// timeout is in milliseconds.
pub struct RESTRequest {
    pub method: HTTPMethod,
    pub url: String,
    pub headers: StrMap<String>,
    pub params: StrMap<String>,
    pub body: Option<RequestBody>,
    pub auth: Option<Auth>,
    pub timeout_ms: Option<u64>,
    pub follow_redirects: bool,
}


/// REST response: status, headers, the body read as JSON where it is JSON,
/// the raw body and its size in bytes, how long the exchange took (in
/// milliseconds) and the URL asked for.
#[derive(Debug)]
pub struct RESTResponse {
    pub status: u16,
    pub status_text: String,
    pub headers: StrMap<String>,
    pub body: Option<JsonValue>,
    pub raw_body: Option<Vec<u8>>,
    pub size: usize,
    pub duration_ms: u64,
    pub url: String,
}

/// The response made of what came back for a request: the body is what
/// `serde_json` reads from the raw bytes, when it reads anything; the raw
/// bytes are kept and counted.
pub fn response_from(status: u16, status_text: String, headers: StrMap<String>, raw: Vec<u8>, duration_ms: u64, url: String)
    -> (r: RESTResponse)
    ensures
        r.status == status,
        r.status_text == status_text,
        r.headers == headers,
        r.body == json_from_bytes(raw@),
        r.raw_body matches Some(b) && b@ == raw@,
        r.size == raw@.len(),
        r.duration_ms == duration_ms,
        r.url == url,
{
    let body = parse_json_bytes(raw.as_slice());
    let size = raw.len();
    RESTResponse { status, status_text, headers, body, raw_body: Some(raw), size, duration_ms, url }
}

} // verus!
