//! API collections: requests grouped under a name, the collections kept by
//! name with one of them active, and their export as curl commands. Reading
//! collection files is outside the library; their JSON is read here, and the
//! choice of a raw body's kind is made here.
use vstd::prelude::*;
use crate::api_client::ApiError;
use crate::api_client::rest::{method_name, method_of_text, Auth, HTTPMethod, RequestBody};
use crate::cloud::{tag_map, tags_of};
use crate::api_client::CollectionFormat;
use crate::strmap::StrMap;
use crate::json::{
    field, field_of, get, get_in, get_member, get_member_in, json_compact, json_parse, opt_chars, parse_json, text_at,
    text_of, write_json, JsonValue,
};
use crate::text::{concat2, contains_seq, contains_str, owned, str_eq, views};

verus! {

/// An API collection.
pub struct APICollection {
    pub name: String,
    pub description: Option<String>,
    pub folders: Vec<CollectionFolder>,
    pub requests: Vec<CollectionRequest>,
    pub variables: StrMap<String>,
    pub auth: Option<Auth>,
    pub version: String,
}

/// A folder of requests and folders.
pub struct CollectionFolder {
    pub name: String,
    pub description: Option<String>,
    pub requests: Vec<CollectionRequest>,
    pub folders: Vec<CollectionFolder>,
}

/// A request of a collection.
pub struct CollectionRequest {
    pub name: String,
    pub method: HTTPMethod,
    pub url: String,
    pub headers: StrMap<String>,
    pub params: StrMap<String>,
    pub body: Option<RequestBody>,
    pub auth: Option<Auth>,
    pub tests: Option<String>,
    pub scripts: Option<Scripts>,
}

/// Scripts run around a request.
#[derive(Debug)]
pub struct Scripts {
    pub pre_request: Option<String>,
    pub post_response: Option<String>,
}

/// The results of running a collection's tests; durations in milliseconds.
#[derive(Debug)]
pub struct TestResults {
    pub total: usize,
    pub passed: usize,
    pub failed: usize,
    pub skipped: usize,
    pub duration_ms: u64,
    pub results: Vec<TestResult>,
}

/// The result of one test.
#[derive(Debug)]
pub struct TestResult {
    pub name: String,
    pub passed: bool,
    pub error: Option<String>,
    pub duration_ms: u64,
    pub response_status: Option<u16>,
}

/// The body of an imported request with raw content: JSON when the
/// Content-Type header mentions "json" and the content is JSON (its compact
/// text given as `json_text`), text otherwise.
pub fn raw_body(raw: String, content_type: Option<&str>, json_text: Option<String>) -> (b: RequestBody)
    ensures
        match content_type {
            Some(ct) => if contains_seq(ct@, "json"@) && json_text is Some {
                b == RequestBody::JSON(json_text->0)
            } else {
                b == RequestBody::Text(raw)
            },
            None => b == RequestBody::Text(raw),
        },
{
    match content_type {
        Some(ct) => {
            if contains_str(ct, "json") {
                match json_text {
                    Some(j) => RequestBody::JSON(j),
                    None => RequestBody::Text(raw),
                }
            } else {
                RequestBody::Text(raw)
            }
        },
        None => RequestBody::Text(raw),
    }
}

/// The `-H` flags of a request's headers, in order.
pub open spec fn header_flags(hs: Seq<(Seq<char>, String)>) -> Seq<char>
    decreases hs.len(),
{
    if hs.len() == 0 {
        Seq::empty()
    } else {
        header_flags(hs.drop_last()) + " -H '"@ + hs.last().0 + ": "@ + hs.last().1@ + "'"@
    }
}

/// The `-d` flag of a JSON or text body; nothing for other bodies.
pub open spec fn body_flag(b: Option<RequestBody>) -> Seq<char> {
    match b {
        Some(RequestBody::JSON(j)) => " -d '"@ + j@ + "'"@,
        Some(RequestBody::Text(t)) => " -d '"@ + t@ + "'"@,
        _ => Seq::empty(),
    }
}

/// The curl command of a request, followed by a blank line.
pub open spec fn curl_command(r: CollectionRequest) -> Seq<char> {
    "curl -X "@ + method_name(r.method) + " '"@ + r.url@ + "'"@ + header_flags(r.headers.entries())
        + body_flag(r.body) + "\n\n"@
}

/// The curl commands of requests, in order.
pub open spec fn curl_text(rs: Seq<CollectionRequest>) -> Seq<char>
    decreases rs.len(),
{
    if rs.len() == 0 {
        Seq::empty()
    } else {
        curl_text(rs.drop_last()) + curl_command(rs.last())
    }
}

fn curl_command_of(r: &CollectionRequest) -> (s: String)
    ensures s@ == curl_command(*r),
{
    let mut out = owned("curl -X ");
    out.append(r.method.as_str());
    out.append(" '");
    out.append(r.url.as_str());
    out.append("'");
    let ghost head = out@;
    let n = r.headers.len();
    let mut i: usize = 0;
    proof {
        reveal_strlit("");
        assert(r.headers.entries().subrange(0, 0) =~= Seq::<(Seq<char>, String)>::empty());
        assert(head + Seq::<char>::empty() =~= head);
    }
    while i < n
        invariant
            i <= n,
            n == r.headers.entries().len(),
            out@ == head + header_flags(r.headers.entries().subrange(0, i as int)),
        decreases n - i,
    {
        let (k, v) = r.headers.entry_at(i);
        proof {
            let s = r.headers.entries().subrange(0, i + 1);
            assert(s.drop_last() =~= r.headers.entries().subrange(0, i as int));
        }
        out.append(" -H '");
        out.append(k.as_str());
        out.append(": ");
        out.append(v.as_str());
        out.append("'");
        i = i + 1;
    }
    proof {
        assert(r.headers.entries().subrange(0, n as int) =~= r.headers.entries());
    }
    match &r.body {
        Some(RequestBody::JSON(j)) => {
            out.append(" -d '");
            out.append(j.as_str());
            out.append("'");
        },
        Some(RequestBody::Text(t)) => {
            out.append(" -d '");
            out.append(t.as_str());
            out.append("'");
        },
        _ => {
            proof {
                assert(out@ + body_flag(r.body) =~= out@);
            }
        },
    }
    out.append("\n\n");
    proof {
        reveal_strlit("curl -X ");
        reveal_strlit(" '");
        reveal_strlit("'");
        reveal_strlit("\n\n");
        reveal_strlit(" -d '");
        assert(out@ =~= curl_command(*r));
    }
    out
}

/// The curl commands of a collection's requests; see `curl_text`.
pub fn export_curl(collection: &APICollection) -> (r: String)
    ensures r@ == curl_text(collection.requests@),
{
    let mut out = owned("");
    proof {
        reveal_strlit("");
    }
    let mut i: usize = 0;
    while i < collection.requests.len()
        invariant
            i <= collection.requests@.len(),
            out@ == curl_text(collection.requests@.subrange(0, i as int)),
        decreases collection.requests.len() - i,
    {
        proof {
            let s = collection.requests@.subrange(0, i + 1);
            assert(s.drop_last() =~= collection.requests@.subrange(0, i as int));
        }
        let c = curl_command_of(&collection.requests[i]);
        out.append(c.as_str());
        i = i + 1;
    }
    proof {
        assert(collection.requests@.subrange(0, collection.requests@.len() as int) =~= collection.requests@);
    }
    out
}

/// The message of an export format that is not written.
pub open spec fn export_refusal(format: CollectionFormat) -> Seq<char> {
    match format {
        CollectionFormat::PostmanV2 => "Postman export not yet implemented"@,
        CollectionFormat::OpenAPI3 => "OpenAPI export not yet implemented"@,
        CollectionFormat::HAR => "HAR export not yet implemented"@,
        CollectionFormat::Insomnia => "Insomnia export not yet implemented"@,
        CollectionFormat::Bruno => "Bruno export not yet implemented"@,
        CollectionFormat::Curl => "curl"@,
    }
}

/// Keeps the collections by name, and which one is active.
pub struct CollectionManager {
    collections: StrMap<APICollection>,
    active_collection: Option<String>,
}

impl CollectionManager {
    pub closed spec fn wf(&self) -> bool {
        self.collections.wf()
    }

    /// The collections by name.
    pub closed spec fn collections_view(&self) -> Map<Seq<char>, APICollection> {
        self.collections@
    }

    /// The names, in the order first added.
    pub closed spec fn names(&self) -> Seq<Seq<char>> {
        self.collections.key_seq()
    }

    /// The name made active, if any.
    pub closed spec fn active_name(&self) -> Option<Seq<char>> {
        match self.active_collection {
            Some(a) => Some(a@),
            None => None,
        }
    }

    /// A manager with no collections.
    pub fn new() -> (m: Self)
        ensures
            m.wf(),
            m.collections_view() == Map::<Seq<char>, APICollection>::empty(),
            m.names() == Seq::<Seq<char>>::empty(),
            m.active_name() is None,
    {
        let m = CollectionManager { collections: StrMap::new(), active_collection: None };
        assert(m.names() =~= Seq::<Seq<char>>::empty());
        m
    }

    /// Keep an imported collection under its name, replacing one of that name.
    pub fn add(&mut self, collection: APICollection)
        requires old(self).wf(),
        ensures
            final(self).wf(),
            final(self).collections_view() == old(self).collections_view().insert(collection.name@, collection),
            final(self).active_name() == old(self).active_name(),
    {
        let name = collection.name.clone();
        self.collections.insert(name, collection);
    }

    /// The collection under `name`.
    pub fn get(&self, name: &str) -> (r: Option<&APICollection>)
        requires self.wf(),
        ensures
            match r {
                Some(c) => self.collections_view().contains_key(name@) && *c == self.collections_view()[name@],
                None => !self.collections_view().contains_key(name@),
            },
    {
        self.collections.get(name)
    }

    /// The collection names, in the order first added.
    pub fn list(&self) -> (r: Vec<String>)
        ensures views(r@) == self.names(),
    {
        let r = self.collections.keys();
        assert(views(r@) =~= self.names());
        r
    }

    /// Make a name active, or none; the name need not be known.
    pub fn set_active(&mut self, name: Option<&str>)
        ensures
            final(self).active_name() == (match name {
                Some(n) => Some(n@),
                None => None::<Seq<char>>,
            }),
            final(self).collections_view() == old(self).collections_view(),
            final(self).names() == old(self).names(),
            final(self).wf() == old(self).wf(),
    {
        self.active_collection = match name {
            Some(n) => Some(owned(n)),
            None => None,
        };
    }

    /// The active collection, while its name is that of a collection.
    pub fn active(&self) -> (r: Option<&APICollection>)
        requires self.wf(),
        ensures
            match self.active_name() {
                Some(n) => match r {
                    Some(c) => self.collections_view().contains_key(n) && *c == self.collections_view()[n],
                    None => !self.collections_view().contains_key(n),
                },
                None => r is None,
            },
    {
        match &self.active_collection {
            Some(n) => self.collections.get(n.as_str()),
            None => None,
        }
    }

    /// The export of the collection under `name`: curl commands; the other
    /// formats are refused, as is an unknown name.
    pub fn export(&self, name: &str, format: CollectionFormat) -> (r: Result<String, ApiError>)
        requires self.wf(),
        ensures
            !self.collections_view().contains_key(name@) ==> (r matches Err(ApiError(m))
                && m@ == "Collection not found: "@ + name@),
            self.collections_view().contains_key(name@) ==> (if format == CollectionFormat::Curl {
                r matches Ok(t) && t@ == curl_text(self.collections_view()[name@].requests@)
            } else {
                r matches Err(ApiError(m)) && m@ == export_refusal(format)
            }),
    {
        let c = match self.collections.get(name) {
            Some(c) => c,
            None => {
                return Err(ApiError(concat2("Collection not found: ", name)));
            },
        };
        match format {
            CollectionFormat::Curl => Ok(export_curl(c)),
            CollectionFormat::PostmanV2 => Err(ApiError(owned("Postman export not yet implemented"))),
            CollectionFormat::OpenAPI3 => Err(ApiError(owned("OpenAPI export not yet implemented"))),
            CollectionFormat::HAR => Err(ApiError(owned("HAR export not yet implemented"))),
            CollectionFormat::Insomnia => Err(ApiError(owned("Insomnia export not yet implemented"))),
            CollectionFormat::Bruno => Err(ApiError(owned("Bruno export not yet implemented"))),
        }
    }

    /// Running a collection's tests is refused.
    pub fn run_tests(&self, name: &str) -> (r: Result<TestResults, ApiError>)
        ensures r matches Err(ApiError(m)) && m@ == "Test execution not yet implemented"@,
    {
        Err(ApiError(owned("Test execution not yet implemented")))
    }
}

/// The error for an import format that is not read: all but Postman v2.
pub fn import_refusal(format: CollectionFormat) -> (r: Option<ApiError>)
    ensures
        match format {
            CollectionFormat::PostmanV2 => r is None,
            CollectionFormat::OpenAPI3 => r matches Some(ApiError(m)) && m@ == "OpenAPI import not yet implemented"@,
            CollectionFormat::HAR => r matches Some(ApiError(m)) && m@ == "HAR import not yet implemented"@,
            CollectionFormat::Curl => r matches Some(ApiError(m)) && m@ == "Curl import not yet implemented"@,
            CollectionFormat::Insomnia => r matches Some(ApiError(m)) && m@ == "Insomnia import not yet implemented"@,
            CollectionFormat::Bruno => r matches Some(ApiError(m)) && m@ == "Bruno import not yet implemented"@,
        },
{
    match format {
        CollectionFormat::PostmanV2 => None,
        CollectionFormat::OpenAPI3 => Some(ApiError(owned("OpenAPI import not yet implemented"))),
        CollectionFormat::HAR => Some(ApiError(owned("HAR import not yet implemented"))),
        CollectionFormat::Curl => Some(ApiError(owned("Curl import not yet implemented"))),
        CollectionFormat::Insomnia => Some(ApiError(owned("Insomnia import not yet implemented"))),
        CollectionFormat::Bruno => Some(ApiError(owned("Bruno import not yet implemented"))),
    }
}


/// The body of a request in a Postman collection: its mode, its raw text,
/// and that text re-written compactly when it is JSON.
#[derive(Debug)]
pub struct PostmanBody {
    pub mode: Option<String>,
    pub raw: Option<String>,
    pub raw_json: Option<String>,
}

/// An item of a Postman collection as read from its JSON: a folder (which
/// holds items of its own) or a request with its name, method, raw URL,
/// headers (key and value, when they are strings) and body.
#[derive(Debug)]
pub struct PostmanItem {
    pub is_folder: bool,
    pub name: Option<String>,
    pub method: Option<String>,
    pub url_raw: Option<String>,
    pub headers: Vec<(Option<String>, Option<String>)>,
    pub body: Option<PostmanBody>,
}

/// The headers of a request's `header` array: each entry's `key` and `value`
/// where they are strings; none without such an array.
pub open spec fn headers_read(hs: Seq<(Option<String>, Option<String>)>, o: Option<JsonValue>) -> bool {
    match o {
        Some(JsonValue::Array(xs)) => hs.len() == xs@.len() && forall|i: int| 0 <= i < hs.len()
            ==> opt_chars((#[trigger] hs[i]).0) == text_at(get(xs@[i], "key"@))
                && opt_chars(hs[i].1) == text_at(get(xs@[i], "value"@)),
        _ => hs.len() == 0,
    }
}

/// A raw body's text written again compactly, where it is JSON.
pub open spec fn raw_json_of(raw: Option<Seq<char>>) -> Option<Seq<char>> {
    match raw {
        Some(t) => match json_parse(t) {
            Ok(v) => Some(json_compact(v)),
            Err(_) => None,
        },
        None => None,
    }
}

/// The body of a request's `body` object: its `mode` and `raw` strings, and
/// the raw text written again compactly where it is JSON; none without such
/// an object.
pub open spec fn body_read(b: Option<PostmanBody>, o: Option<JsonValue>) -> bool {
    match o {
        Some(JsonValue::Object(fs)) => b matches Some(pb)
            && opt_chars(pb.mode) == text_at(field_of(fs@, "mode"@))
            && opt_chars(pb.raw) == text_at(field_of(fs@, "raw"@))
            && opt_chars(pb.raw_json) == raw_json_of(text_at(field_of(fs@, "raw"@))),
        _ => b is None,
    }
}

/// `p` is the item read from an entry `x` of a collection's `item` array: a
/// folder when it has an `item` array of its own; its name; the method, raw
/// URL, headers and body of its `request`.
pub open spec fn postman_item_read(p: PostmanItem, x: JsonValue) -> bool {
    let request = get(x, "request"@);
    &&& p.is_folder == (get(x, "item"@) matches Some(JsonValue::Array(_)))
    &&& opt_chars(p.name) == text_at(get(x, "name"@))
    &&& opt_chars(p.method) == text_at(get_in(request, "method"@))
    &&& opt_chars(p.url_raw) == text_at(get_in(get_in(request, "url"@), "raw"@))
    &&& headers_read(p.headers@, get_in(request, "header"@))
    &&& body_read(p.body, get_in(request, "body"@))
}

/// The items of a collection's `item` array, in order; none without it.
pub open spec fn items_read(ps: Seq<PostmanItem>, o: Option<JsonValue>) -> bool {
    match o {
        Some(JsonValue::Array(xs)) => ps.len() == xs@.len()
            && forall|i: int| 0 <= i < ps.len() ==> postman_item_read(#[trigger] ps[i], xs@[i]),
        _ => ps.len() == 0,
    }
}

fn read_headers(o: Option<&JsonValue>) -> (r: Vec<(Option<String>, Option<String>)>)
    ensures headers_read(r@, match o { Some(x) => Some(*x), None => None }),
{
    let mut r: Vec<(Option<String>, Option<String>)> = Vec::new();
    if let Some(JsonValue::Array(xs)) = o {
        let mut i: usize = 0;
        while i < xs.len()
            invariant
                i <= xs@.len(),
                r@.len() == i,
                forall|j: int| 0 <= j < i ==> opt_chars((#[trigger] r@[j]).0) == text_at(get(xs@[j], "key"@))
                    && opt_chars(r@[j].1) == text_at(get(xs@[j], "value"@)),
            decreases xs.len() - i,
        {
            let key = text_of(get_member(&xs[i], "key"));
            let value = text_of(get_member(&xs[i], "value"));
            r.push((key, value));
            i = i + 1;
        }
    }
    r
}

fn read_body(o: Option<&JsonValue>) -> (r: Option<PostmanBody>)
    ensures body_read(r, match o { Some(x) => Some(*x), None => None }),
{
    match o {
        Some(JsonValue::Object(fs)) => {
            let mode = text_of(field(fs, "mode"));
            let raw = text_of(field(fs, "raw"));
            let raw_json = match &raw {
                Some(t) => match parse_json(t.as_str()) {
                    Ok(v) => Some(write_json(&v)),
                    Err(_) => None,
                },
                None => None,
            };
            Some(PostmanBody { mode, raw, raw_json })
        },
        _ => None,
    }
}

fn read_item(x: &JsonValue) -> (p: PostmanItem)
    ensures postman_item_read(p, *x),
{
    let is_folder = match get_member(x, "item") {
        Some(JsonValue::Array(_)) => true,
        _ => false,
    };
    let name = text_of(get_member(x, "name"));
    let request = get_member(x, "request");
    let method = text_of(get_member_in(request, "method"));
    let url_raw = text_of(get_member_in(get_member_in(request, "url"), "raw"));
    let headers = read_headers(get_member_in(request, "header"));
    let body = read_body(get_member_in(request, "body"));
    PostmanItem { is_folder, name, method, url_raw, headers, body }
}

/// A Postman collection's JSON read into its name, its description and its
/// top-level items (see `postman_item_read`), to be made a collection by
/// `import_postman_v2`. Text that is not JSON is refused with `serde_json`'s
/// message.
pub fn postman_from_json(content: &str) -> (r: Result<(Option<String>, Option<String>, Vec<PostmanItem>), ApiError>)
    ensures
        match json_parse(content@) {
            Ok(v) => r matches Ok((n, d, items))
                && opt_chars(n) == text_at(get_in(get(v, "info"@), "name"@))
                && opt_chars(d) == text_at(get_in(get(v, "info"@), "description"@))
                && items_read(items@, get(v, "item"@)),
            Err(m) => r matches Err(ApiError(e)) && e@ == m,
        },
{
    let v = match parse_json(content) {
        Ok(v) => v,
        Err(m) => {
            return Err(ApiError(m));
        },
    };
    let info = get_member(&v, "info");
    let name = text_of(get_member_in(info, "name"));
    let description = text_of(get_member_in(info, "description"));
    let mut items: Vec<PostmanItem> = Vec::new();
    if let Some(JsonValue::Array(xs)) = get_member(&v, "item") {
        let mut i: usize = 0;
        while i < xs.len()
            invariant
                i <= xs@.len(),
                items@.len() == i,
                forall|j: int| 0 <= j < i ==> postman_item_read(#[trigger] items@[j], xs@[j]),
            decreases xs.len() - i,
        {
            items.push(read_item(&xs[i]));
            i = i + 1;
        }
    }
    Ok((name, description, items))
}

fn text_or(o: Option<String>, default: &str) -> (r: String)
    ensures
        r@ == (match o {
            Some(s) => s@,
            None => default@,
        }),
{
    match o {
        Some(s) => s,
        None => owned(default),
    }
}

/// The text of an optional string, or a default.
pub open spec fn text_or_spec(o: Option<String>, default: Seq<char>) -> Seq<char> {
    match o {
        Some(s) => s@,
        None => default,
    }
}

/// The body a request item gets: with a raw body, JSON when its headers'
/// Content-Type mentions "json" and the text is JSON, text otherwise; none
/// without raw text, for other modes, or without a body.
pub open spec fn postman_body(item: PostmanItem, b: Option<RequestBody>) -> bool {
    let headers = tags_of(item.headers@);
    let json = headers.contains_key("Content-Type"@) && contains_seq(headers["Content-Type"@], "json"@);
    match item.body {
        Some(body) => if body.mode matches Some(m) && m@ == "raw"@ {
            match body.raw {
                Some(raw) => if json && body.raw_json is Some {
                    b == Some(RequestBody::JSON(body.raw_json->0))
                } else {
                    b == Some(RequestBody::Text(raw))
                },
                None => b is None,
            }
        } else {
            b is None
        },
        None => b is None,
    }
}

/// `r` is the request a Postman request item describes: named "Unnamed",
/// sent with GET and to an empty URL when these are missing, with the
/// headers that have both key and value, its body (see `postman_body`), and
/// no parameters, authentication, tests or scripts.
pub open spec fn parsed_from(r: CollectionRequest, item: PostmanItem) -> bool {
    &&& r.name@ == text_or_spec(item.name, "Unnamed"@)
    &&& r.method == method_of_text(text_or_spec(item.method, "GET"@))
    &&& r.url@ == text_or_spec(item.url_raw, ""@)
    &&& r.headers.wf()
    &&& r.headers@.map_values(|v: String| v@) == tags_of(item.headers@)
    &&& postman_body(item, r.body)
    &&& r.params.wf() && r.params@ == Map::<Seq<char>, String>::empty()
    &&& r.auth is None && r.tests is None && r.scripts is None
}

/// The request a Postman request item describes; see `parsed_from`.
pub fn parse_postman_request(item: PostmanItem) -> (r: CollectionRequest)
    ensures parsed_from(r, item),
{
    let ghost it = item;
    let PostmanItem { is_folder, name, method, url_raw, headers, body } = item;
    let name = text_or(name, "Unnamed");
    let method_text = text_or(method, "GET");
    let method = HTTPMethod::from(method_text.as_str());
    let url = text_or(url_raw, "");
    let headers = tag_map(headers);
    let body = match body {
        Some(b) => {
            let PostmanBody { mode, raw, raw_json } = b;
            let is_raw = match &mode {
                Some(m) => str_eq(m.as_str(), "raw"),
                None => false,
            };
            if is_raw {
                match raw {
                    Some(raw) => {
                        let ct = headers.get("Content-Type");
                        let ct_str = match ct {
                            Some(c) => Some(c.as_str()),
                            None => None,
                        };
                        Some(raw_body(raw, ct_str, raw_json))
                    },
                    None => None,
                }
            } else {
                None
            }
        },
        None => None,
    };
    proof {
        assert(headers@.contains_key("Content-Type"@) ==> headers@.map_values(|v: String| v@)["Content-Type"@] == headers@["Content-Type"@]@);
    }
    CollectionRequest {
        name,
        method,
        url,
        headers,
        params: StrMap::new(),
        body,
        auth: None,
        tests: None,
        scripts: None,
    }
}

/// The request items among items, folders skipped, in order.
pub open spec fn request_items(items: Seq<PostmanItem>) -> Seq<PostmanItem>
    decreases items.len(),
{
    if items.len() == 0 {
        items
    } else if items.last().is_folder {
        request_items(items.drop_last())
    } else {
        request_items(items.drop_last()).push(items.last())
    }
}

/// A Postman v2 collection: named by its info ("Unnamed" without a name),
/// with its description, the requests of its top-level request items (folders
/// are not read), no folders, variables or authentication, version "2.1.0".
pub fn import_postman_v2(name: Option<String>, description: Option<String>, items: Vec<PostmanItem>)
    -> (r: Result<APICollection, ApiError>)
    ensures
        r matches Ok(c) && c.name@ == text_or_spec(name, "Unnamed"@) && c.description == description
            && c.folders@.len() == 0 && c.variables.wf() && c.variables@ == Map::<Seq<char>, String>::empty()
            && c.auth is None && c.version@ == "2.1.0"@
            && c.requests@.len() == request_items(items@).len()
            && (forall|i: int| 0 <= i < c.requests@.len() ==> parsed_from(#[trigger] c.requests@[i], request_items(items@)[i])),
{
    let ghost all = items@;
    let mut requests: Vec<CollectionRequest> = Vec::new();
    let mut rest = items;
    let n = rest.len();
    let mut i: usize = 0;
    proof {
        assert(all.subrange(0, 0) =~= Seq::<PostmanItem>::empty());
    }
    while i < n
        invariant
            n == all.len(),
            i <= n,
            rest@ == all.subrange(i as int, n as int),
            requests@.len() == request_items(all.subrange(0, i as int)).len(),
            forall|j: int| 0 <= j < requests@.len() ==> parsed_from(#[trigger] requests@[j], request_items(all.subrange(0, i as int))[j]),
        decreases n - i,
    {
        let item = rest.remove(0);
        proof {
            assert(item == all[i as int]);
            assert(all.subrange(0, i + 1).drop_last() =~= all.subrange(0, i as int));
            assert(rest@ =~= all.subrange(i + 1, n as int));
        }
        if !item.is_folder {
            let ghost before = requests@;
            let req = parse_postman_request(item);
            requests.push(req);
            proof {
                assert forall|j: int| 0 <= j < requests@.len() implies parsed_from(#[trigger] requests@[j], request_items(all.subrange(0, i + 1))[j]) by {
                    if j < before.len() {
                        assert(requests@[j] == before[j]);
                    }
                }
            }
        }
        i = i + 1;
    }
    proof {
        assert(all.subrange(0, n as int) =~= all);
    }
    let name = text_or(name, "Unnamed");
    Ok(APICollection {
        name,
        description,
        folders: Vec::new(),
        requests,
        variables: StrMap::new(),
        auth: None,
        version: owned("2.1.0"),
    })
}

} // verus!
