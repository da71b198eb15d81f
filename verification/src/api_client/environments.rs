//! Environments: named sets of variables, a base URL, headers and
//! authentication, one of which may be active. The active environment's
//! variables are put in for their `{{name}}` placeholders in requests. The
//! variables of an environment are kept in the order first set, and that is
//! the order in which they are put in. Reading and writing files is outside
//! the library; `.env` and JSON text are read and written here.
use vstd::prelude::*;
use crate::api_client::ApiError;
use crate::api_client::graphql::GraphQLQuery;
use crate::api_client::grpc::GRPCRequest;
use crate::api_client::rest::{Auth, RESTRequest, RequestBody};
use crate::strmap::StrMap;
use crate::json::{
    get, get_member, json_parse, json_pretty, opt_chars, parse_json, text_at, text_of, write_json_pretty, JsonValue,
};
use crate::text::{
    concat2, lines, owned, replace_all, replace_str, split_lines, split_once_char, split_once_seq,
    trim_seq, trim_str, views,
};

verus! {

/// An environment.
pub struct Environment {
    pub name: String,
    pub variables: StrMap<String>,
    pub base_url: Option<String>,
    pub headers: StrMap<String>,
    pub auth: Option<Auth>,
    pub is_active: bool,
}

/// Two environments hold the same name, variables, base URL, headers,
/// authentication and flag.
pub open spec fn same_environment(a: Environment, b: Environment) -> bool {
    &&& a.name == b.name
    &&& a.variables.entries() == b.variables.entries()
    &&& a.base_url == b.base_url
    &&& a.headers.entries() == b.headers.entries()
    &&& a.auth == b.auth
    &&& a.is_active == b.is_active
}

impl Environment {
    /// A copy of the environment.
    pub fn duplicate(&self) -> (e: Self)
        ensures same_environment(e, *self),
    {
        Environment {
            name: self.name.clone(),
            variables: self.variables.duplicate(),
            base_url: match &self.base_url {
                Some(b) => Some(b.clone()),
                None => None,
            },
            headers: self.headers.duplicate(),
            auth: match &self.auth {
                Some(a) => Some(a.duplicate()),
                None => None,
            },
            is_active: self.is_active,
        }
    }
}

/// Environment file format.
#[derive(Debug, Clone, Copy, PartialEq, Eq, Structural)]
pub enum EnvironmentFormat {
    JSON,
    YAML,
    ENV,
    Postman,
}

/// The placeholder that stands for a variable: `{{name}}`.
pub open spec fn placeholder(name: Seq<char>) -> Seq<char> {
    "{{"@ + name + "}}"@
}

/// `text` with the variables put in for their placeholders, one variable
/// after the other in order.
pub open spec fn substitute(text: Seq<char>, vars: Seq<(Seq<char>, String)>) -> Seq<char>
    decreases vars.len(),
{
    if vars.len() == 0 {
        text
    } else {
        replace_all(substitute(text, vars.drop_last()), placeholder(vars.last().0), vars.last().1@)
    }
}

/// `text` with an environment put in: its variables, then its base URL for
/// `{{base_url}}`.
pub open spec fn resolve_in(env: Environment, text: Seq<char>) -> Seq<char> {
    let t = substitute(text, env.variables.entries());
    match env.base_url {
        Some(b) => replace_all(t, "{{base_url}}"@, b@),
        None => t,
    }
}

/// `text` with an environment put in; see `resolve_in`.
fn resolve_with(env: &Environment, text: &str) -> (r: String)
    ensures r@ == resolve_in(*env, text@),
{
    let mut out = owned(text);
    let n = env.variables.len();
    let mut i: usize = 0;
    while i < n
        invariant
            i <= n,
            n == env.variables.entries().len(),
            out@ == substitute(text@, env.variables.entries().subrange(0, i as int)),
        decreases n - i,
    {
        let (k, v) = env.variables.entry_at(i);
        proof {
            reveal_strlit("{{");
            reveal_strlit("}}");
            let s = env.variables.entries().subrange(0, i + 1);
            assert(s.drop_last() =~= env.variables.entries().subrange(0, i as int));
        }
        let a = concat2("{{", k.as_str());
        let pat = concat2(a.as_str(), "}}");
        out = replace_str(out.as_str(), pat.as_str(), v.as_str());
        i = i + 1;
    }
    proof {
        assert(env.variables.entries().subrange(0, n as int) =~= env.variables.entries());
    }
    match &env.base_url {
        Some(b) => {
            proof {
                reveal_strlit("{{base_url}}");
            }
            replace_str(out.as_str(), "{{base_url}}", b.as_str())
        },
        None => out,
    }
}

/// The variables of a `.env` text: each line with an '=' sets the trimmed
/// text before it to the trimmed text after it, later lines winning.
pub open spec fn env_vars(ls: Seq<Seq<char>>) -> Map<Seq<char>, Seq<char>>
    decreases ls.len(),
{
    if ls.len() == 0 {
        Map::empty()
    } else {
        let m = env_vars(ls.drop_last());
        match split_once_seq(ls.last(), '=') {
            Some((k, v)) => m.insert(trim_seq(k), trim_seq(v)),
            None => m,
        }
    }
}

/// The `.env` text of variables: a `name=value` line for each, in order.
pub open spec fn env_text(vars: Seq<(Seq<char>, String)>) -> Seq<char>
    decreases vars.len(),
{
    if vars.len() == 0 {
        Seq::empty()
    } else {
        env_text(vars.drop_last()) + vars.last().0 + "="@ + vars.last().1@ + "\n"@
    }
}

/// The views of a string-valued map's values.
pub open spec fn value_views(m: Map<Seq<char>, String>) -> Map<Seq<char>, Seq<char>> {
    m.map_values(|v: String| v@)
}

/// The views of an optional string.
pub open spec fn opt_view(o: Option<String>) -> Option<Seq<char>> {
    match o {
        Some(s) => Some(s@),
        None => None,
    }
}

/// The entries of a string-valued map as pairs of views.
pub open spec fn entry_views(s: Seq<(Seq<char>, String)>) -> Seq<(Seq<char>, Seq<char>)> {
    s.map_values(|e: (Seq<char>, String)| (e.0, e.1@))
}

/// `v` is the JSON of an environment: an object with the members `name` (the
/// name), `values` (the variables, in order, as an object of strings) and
/// `baseUrl` (the base URL, or null).
pub open spec fn env_json_value(v: JsonValue, name: Seq<char>, vars: Seq<(Seq<char>, String)>, base_url: Option<String>) -> bool {
    &&& v matches JsonValue::Object(fs)
    &&& fs@.len() == 3
    &&& fs@[0].0@ == "name"@
    &&& (fs@[0].1 matches JsonValue::Str(n) && n@ == name)
    &&& fs@[1].0@ == "values"@
    &&& (fs@[1].1 matches JsonValue::Object(vs) && vs@.len() == vars.len()
        && forall|i: int| 0 <= i < vars.len() ==> (#[trigger] vs@[i]).0@ == vars[i].0
            && (vs@[i].1 matches JsonValue::Str(x) && x@ == vars[i].1@))
    &&& fs@[2].0@ == "baseUrl"@
    &&& match base_url {
        Some(b) => fs@[2].1 matches JsonValue::Str(x) && x@ == b@,
        None => fs@[2].1 is Null,
    }
}

/// The JSON value of an environment; see `env_json_value`.
pub fn env_to_json(env: &Environment) -> (v: JsonValue)
    ensures env_json_value(v, env.name@, env.variables.entries(), env.base_url),
{
    let n = env.variables.len();
    let mut vs: Vec<(String, JsonValue)> = Vec::new();
    let mut i: usize = 0;
    while i < n
        invariant
            i <= n,
            n == env.variables.entries().len(),
            vs@.len() == i,
            forall|j: int| 0 <= j < i ==> (#[trigger] vs@[j]).0@ == env.variables.entries()[j].0
                && (vs@[j].1 matches JsonValue::Str(x) && x@ == env.variables.entries()[j].1@),
        decreases n - i,
    {
        let (k, v) = env.variables.entry_at(i);
        vs.push((k.clone(), JsonValue::Str(v.clone())));
        i = i + 1;
    }
    let base = match &env.base_url {
        Some(b) => JsonValue::Str(b.clone()),
        None => JsonValue::Null,
    };
    let mut fs: Vec<(String, JsonValue)> = Vec::new();
    fs.push((owned("name"), JsonValue::Str(env.name.clone())));
    fs.push((owned("values"), JsonValue::Object(vs)));
    fs.push((owned("baseUrl"), base));
    JsonValue::Object(fs)
}

/// An environment read from a JSON export: its name, its variables and its
/// base URL.
#[derive(Debug)]
pub struct ImportedEnvironment {
    pub name: String,
    pub values: Vec<(String, String)>,
    pub base_url: Option<String>,
}

/// An entry of an environments array that names an environment: it has a
/// `name` string and a `values` object.
pub open spec fn is_env_entry(x: JsonValue) -> bool {
    &&& text_at(get(x, "name"@)) is Some
    &&& get(x, "values"@) matches Some(JsonValue::Object(_))
}

/// The entries of an array that name environments, in order.
pub open spec fn env_entries(xs: Seq<JsonValue>) -> Seq<JsonValue>
    decreases xs.len(),
{
    if xs.len() == 0 {
        Seq::empty()
    } else if is_env_entry(xs.last()) {
        env_entries(xs.drop_last()).push(xs.last())
    } else {
        env_entries(xs.drop_last())
    }
}

/// The text of a value that is a string, else the empty text.
pub open spec fn text_or_empty(v: JsonValue) -> Seq<char> {
    match v {
        JsonValue::Str(s) => s@,
        _ => Seq::empty(),
    }
}

/// `e` is read from the entry `x`: its name, its values in order (a value
/// that is not a string read as empty) and its base URL when that is a string.
pub open spec fn env_read_from(e: ImportedEnvironment, x: JsonValue) -> bool {
    &&& text_at(get(x, "name"@)) == Some(e.name@)
    &&& (get(x, "values"@) matches Some(JsonValue::Object(vs)) && e.values@.len() == vs@.len()
        && forall|j: int| 0 <= j < vs@.len() ==> (#[trigger] e.values@[j]).0@ == vs@[j].0@
            && e.values@[j].1@ == text_or_empty(vs@[j].1))
    &&& opt_chars(e.base_url) == text_at(get(x, "baseUrl"@))
}

/// `es` are the environments of a JSON document: one for each entry of the
/// array that names an environment, none when it is not an array.
pub open spec fn envs_read_from(es: Seq<ImportedEnvironment>, v: JsonValue) -> bool {
    match v {
        JsonValue::Array(xs) => es.len() == env_entries(xs@).len()
            && forall|i: int| 0 <= i < es.len() ==> env_read_from(#[trigger] es[i], env_entries(xs@)[i]),
        _ => es.len() == 0,
    }
}

fn read_values(vs: &Vec<(String, JsonValue)>) -> (r: Vec<(String, String)>)
    ensures
        r@.len() == vs@.len(),
        forall|j: int| 0 <= j < vs@.len() ==> (#[trigger] r@[j]).0@ == vs@[j].0@
            && r@[j].1@ == text_or_empty(vs@[j].1),
{
    let mut r: Vec<(String, String)> = Vec::new();
    let mut i: usize = 0;
    while i < vs.len()
        invariant
            i <= vs@.len(),
            r@.len() == i,
            forall|j: int| 0 <= j < i ==> (#[trigger] r@[j]).0@ == vs@[j].0@
                && r@[j].1@ == text_or_empty(vs@[j].1),
        decreases vs.len() - i,
    {
        let value = match &vs[i].1 {
            JsonValue::Str(t) => t.clone(),
            _ => {
                let e = owned("");
                proof { reveal_strlit(""); }
                e
            },
        };
        r.push((vs[i].0.clone(), value));
        i = i + 1;
    }
    r
}

/// The environments of a JSON export: an array whose entries with a `name`
/// string and a `values` object each give an environment (values that are
/// not strings read as empty; the base URL when `baseUrl` is a string). Text
/// that is not JSON is refused with `serde_json`'s message.
pub fn environments_from_json(content: &str) -> (r: Result<Vec<ImportedEnvironment>, ApiError>)
    ensures
        match json_parse(content@) {
            Ok(v) => r matches Ok(es) && envs_read_from(es@, v),
            Err(m) => r matches Err(ApiError(e)) && e@ == m,
        },
{
    let v = match parse_json(content) {
        Ok(v) => v,
        Err(m) => {
            return Err(ApiError(m));
        },
    };
    let mut out: Vec<ImportedEnvironment> = Vec::new();
    if let JsonValue::Array(xs) = &v {
        let mut i: usize = 0;
        while i < xs.len()
            invariant
                i <= xs@.len(),
                out@.len() == env_entries(xs@.subrange(0, i as int)).len(),
                forall|j: int| 0 <= j < out@.len() ==> env_read_from(#[trigger] out@[j], env_entries(xs@.subrange(0, i as int))[j]),
            decreases xs.len() - i,
        {
            let x = &xs[i];
            proof {
                assert(xs@.subrange(0, i + 1).drop_last() =~= xs@.subrange(0, i as int));
                assert(xs@.subrange(0, i + 1).last() == xs@[i as int]);
            }
            let name = text_of(get_member(x, "name"));
            let values = get_member(x, "values");
            match (name, values) {
                (Some(name), Some(JsonValue::Object(vs))) => {
                    let base_url = text_of(get_member(x, "baseUrl"));
                    let e = ImportedEnvironment { name, values: read_values(vs), base_url };
                    let ghost before = out@;
                    out.push(e);
                    proof {
                        assert forall|j: int| 0 <= j < out@.len() implies env_read_from(#[trigger] out@[j], env_entries(xs@.subrange(0, i + 1))[j]) by {
                            if j < before.len() {
                                assert(out@[j] == before[j]);
                            }
                        }
                    }
                },
                _ => {},
            }
            i = i + 1;
        }
        proof {
            assert(xs@.subrange(0, xs@.len() as int) =~= xs@);
        }
    }
    Ok(out)
}

/// Keeps the environments and which one is active.
pub struct EnvironmentManager {
    environments: StrMap<Environment>,
    active: Option<String>,
}

/// `after` holds the keys of `before` in the same order, each value with the
/// manager's active environment put in.
pub open spec fn values_resolved(m: EnvironmentManager, before: StrMap<String>, after: StrMap<String>) -> bool {
    &&& after.wf()
    &&& after.entries().len() == before.entries().len()
    &&& forall|j: int|
        0 <= j < before.entries().len() ==> #[trigger] after.entries()[j].0 == before.entries()[j].0
            && after.entries()[j].1@ == m.resolved(before.entries()[j].1@)
}

/// `after` is `before` with the manager's active environment applied: the URL,
/// headers, parameters and a text body with its variables put in, and the
/// environment's authentication when the request has none.
pub open spec fn applied_request(m: EnvironmentManager, before: RESTRequest, after: RESTRequest) -> bool {
    &&& after.method == before.method
    &&& after.url@ == m.resolved(before.url@)
    &&& values_resolved(m, before.headers, after.headers)
    &&& values_resolved(m, before.params, after.params)
    &&& (match before.body {
        Some(RequestBody::Text(t)) => after.body matches Some(RequestBody::Text(u)) && u@ == m.resolved(t@),
        _ => after.body == before.body,
    })
    &&& after.auth == (if before.auth is Some {
        before.auth
    } else {
        match m.active_env() {
            Some(e) => e.auth,
            None => None,
        }
    })
    &&& after.timeout_ms == before.timeout_ms
    &&& after.follow_redirects == before.follow_redirects
}

impl EnvironmentManager {
    pub closed spec fn wf(&self) -> bool {
        self.environments.wf()
    }

    /// The environments by name.
    pub closed spec fn envs_view(&self) -> Map<Seq<char>, Environment> {
        self.environments@
    }

    /// The names, in the order first added.
    pub closed spec fn names(&self) -> Seq<Seq<char>> {
        self.environments.key_seq()
    }

    /// The name made active, if any.
    pub closed spec fn active_name(&self) -> Option<Seq<char>> {
        opt_view(self.active)
    }

    /// The active environment: the one under the active name, while there is one.
    pub open spec fn active_env(&self) -> Option<Environment> {
        match self.active_name() {
            Some(n) => if self.envs_view().contains_key(n) {
                Some(self.envs_view()[n])
            } else {
                None
            },
            None => None,
        }
    }

    /// `text` with the active environment put in, or unchanged when none is active.
    pub open spec fn resolved(&self, text: Seq<char>) -> Seq<char> {
        match self.active_env() {
            Some(e) => resolve_in(e, text),
            None => text,
        }
    }

    /// The names are those of the environments, each once.
    pub proof fn lemma_names(&self)
        requires self.wf(),
        ensures
            self.names().no_duplicates(),
            forall|k: Seq<char>| #[trigger] self.envs_view().contains_key(k) <==> self.names().contains(k),
    {
        self.environments.lemma_key_seq();
    }

    /// A manager with no environments and none active.
    pub fn new() -> (m: Self)
        ensures
            m.wf(),
            m.envs_view() == Map::<Seq<char>, Environment>::empty(),
            m.names() == Seq::<Seq<char>>::empty(),
            m.active_name() is None,
    {
        let m = EnvironmentManager { environments: StrMap::new(), active: None };
        assert(m.names() =~= Seq::<Seq<char>>::empty());
        m
    }

    /// Add an environment under `name`, replacing one of that name.
    pub fn add(&mut self, name: &str, environment: Environment)
        requires old(self).wf(),
        ensures
            final(self).wf(),
            final(self).envs_view() == old(self).envs_view().insert(name@, environment),
            final(self).active_name() == old(self).active_name(),
            old(self).envs_view().contains_key(name@) ==> final(self).names() == old(self).names(),
            !old(self).envs_view().contains_key(name@) ==> final(self).names() == old(self).names().push(name@),
    {
        let ghost before = self.environments;
        self.environments.insert(owned(name), environment);
        proof {
            if !before@.contains_key(name@) {
                assert(self.environments.key_seq() =~= before.key_seq().push(name@));
            }
        }
    }

    /// Remove the environment under `name`, if any. The active name stays.
    pub fn remove(&mut self, name: &str)
        requires old(self).wf(),
        ensures
            final(self).wf(),
            final(self).envs_view() == old(self).envs_view().remove(name@),
            final(self).active_name() == old(self).active_name(),
    {
        self.environments.remove(name);
    }

    /// Make the environment under `name` active, or none. An unknown name is
    /// refused and nothing changes.
    pub fn set_active(&mut self, name: Option<&str>) -> (r: Result<(), ApiError>)
        requires old(self).wf(),
        ensures
            final(self).wf(),
            final(self).envs_view() == old(self).envs_view(),
            final(self).names() == old(self).names(),
            match name {
                None => r is Ok && final(self).active_name() is None,
                Some(n) => if old(self).envs_view().contains_key(n@) {
                    r is Ok && final(self).active_name() == Some(n@)
                } else {
                    (r matches Err(ApiError(m)) && m@ == "Environment not found: "@ + n@)
                        && final(self).active_name() == old(self).active_name()
                },
            },
    {
        match name {
            Some(n) => {
                if self.environments.contains_key(n) {
                    self.active = Some(owned(n));
                    Ok(())
                } else {
                    Err(ApiError(concat2("Environment not found: ", n)))
                }
            },
            None => {
                self.active = None;
                Ok(())
            },
        }
    }

    fn active_ref(&self) -> (r: Option<&Environment>)
        requires self.wf(),
        ensures
            match self.active_env() {
                Some(e) => r matches Some(x) && *x == e,
                None => r is None,
            },
    {
        match &self.active {
            Some(n) => self.environments.get(n.as_str()),
            None => None,
        }
    }

    /// A copy of the active environment.
    pub fn active(&self) -> (r: Option<Environment>)
        requires self.wf(),
        ensures
            match self.active_env() {
                Some(e) => r matches Some(x) && same_environment(x, e),
                None => r is None,
            },
    {
        match self.active_ref() {
            Some(e) => Some(e.duplicate()),
            None => None,
        }
    }

    /// The environment names, in the order first added.
    pub fn list(&self) -> (r: Vec<String>)
        ensures views(r@) == self.names(),
    {
        let r = self.environments.keys();
        assert(views(r@) =~= self.names());
        r
    }

    fn resolve_text(&self, text: &str) -> (r: String)
        requires self.wf(),
        ensures r@ == self.resolved(text@),
    {
        match self.active_ref() {
            Some(e) => resolve_with(e, text),
            None => owned(text),
        }
    }

    /// `text` with the active environment's variables and base URL put in;
    /// see `resolved`.
    pub fn resolve_variables(&self, text: &str) -> (r: Result<String, ApiError>)
        requires self.wf(),
        ensures r matches Ok(s) && s@ == self.resolved(text@),
    {
        Ok(self.resolve_text(text))
    }

    fn resolve_values(&self, m: &mut StrMap<String>)
        requires
            self.wf(),
            old(m).wf(),
        ensures
            values_resolved(*self, *old(m), *final(m)),
    {
        let ghost orig = *m;
        let n = m.len();
        let mut i: usize = 0;
        while i < n
            invariant
                self.wf(),
                n == orig.entries().len(),
                i <= n,
                m.wf(),
                m.entries().len() == n,
                forall|j: int| 0 <= j < n ==> #[trigger] m.entries()[j].0 == orig.entries()[j].0,
                forall|j: int| 0 <= j < i ==> #[trigger] m.entries()[j].1@ == self.resolved(orig.entries()[j].1@),
                forall|j: int| i <= j < n ==> #[trigger] m.entries()[j].1 == orig.entries()[j].1,
            decreases n - i,
        {
            let (_, v) = m.entry_at(i);
            let nv = self.resolve_text(v.as_str());
            let ghost before = *m;
            let slot = m.value_at_mut(i);
            *slot = nv;
            proof {
                StrMap::lemma_update_value(before, *m, i as int, nv);
            }
            i = i + 1;
        }
    }

    /// The request with the active environment applied; see `applied_request`.
    pub fn apply_to_request(&self, request: RESTRequest) -> (r: Result<RESTRequest, ApiError>)
        requires
            self.wf(),
            request.headers.wf(),
            request.params.wf(),
        ensures
            r matches Ok(q) && applied_request(*self, request, q),
    {
        let RESTRequest { method, url, mut headers, mut params, body, auth, timeout_ms, follow_redirects } = request;
        let url = self.resolve_text(url.as_str());
        self.resolve_values(&mut headers);
        self.resolve_values(&mut params);
        let body = match body {
            Some(RequestBody::Text(t)) => Some(RequestBody::Text(self.resolve_text(t.as_str()))),
            other => other,
        };
        let auth = match auth {
            Some(a) => Some(a),
            None => match self.active_ref() {
                Some(e) => match &e.auth {
                    Some(a) => Some(a.duplicate()),
                    None => None,
                },
                None => None,
            },
        };
        Ok(RESTRequest { method, url, headers, params, body, auth, timeout_ms, follow_redirects })
    }

    /// The GraphQL query with the active environment put in its URL and
    /// headers; the query text and variables stay.
    pub fn apply_to_graphql(&self, query: GraphQLQuery) -> (r: Result<GraphQLQuery, ApiError>)
        requires
            self.wf(),
            query.headers.wf(),
        ensures
            r matches Ok(q) && q.url@ == self.resolved(query.url@)
                && values_resolved(*self, query.headers, q.headers)
                && q.query == query.query && q.variables == query.variables
                && q.operation_name == query.operation_name,
    {
        let GraphQLQuery { query, variables, operation_name, url, mut headers } = query;
        let url = self.resolve_text(url.as_str());
        self.resolve_values(&mut headers);
        Ok(GraphQLQuery { query, variables, operation_name, url, headers })
    }

    /// The gRPC request with the active environment put in its metadata.
    pub fn apply_to_grpc(&self, request: GRPCRequest) -> (r: Result<GRPCRequest, ApiError>)
        requires
            self.wf(),
            request.metadata.wf(),
        ensures
            r matches Ok(q) && values_resolved(*self, request.metadata, q.metadata)
                && q.service == request.service && q.method == request.method
                && q.request_data == request.request_data && q.timeout_ms == request.timeout_ms,
    {
        let GRPCRequest { service, method, request_data, mut metadata, timeout_ms } = request;
        self.resolve_values(&mut metadata);
        Ok(GRPCRequest { service, method, request_data, metadata, timeout_ms })
    }

    /// Read `.env` text into the environment "imported" (replacing one of that
    /// name): its variables are `env_vars` of the lines; it has no base URL,
    /// headers or authentication and is not marked active.
    pub fn import_env(&mut self, content: &str) -> (r: Result<(), ApiError>)
        requires old(self).wf(),
        ensures
            r is Ok,
            final(self).wf(),
            final(self).active_name() == old(self).active_name(),
            final(self).envs_view().remove("imported"@) == old(self).envs_view().remove("imported"@),
            final(self).envs_view().contains_key("imported"@),
            ({
                let e = final(self).envs_view()["imported"@];
                &&& e.name@ == "imported"@
                &&& e.variables.wf()
                &&& value_views(e.variables@) == env_vars(lines(content@))
                &&& e.base_url is None
                &&& e.headers.wf() && e.headers@ == Map::<Seq<char>, String>::empty()
                &&& e.auth is None
                &&& !e.is_active
            }),
    {
        let ls = split_lines(content);
        let mut vars: StrMap<String> = StrMap::new();
        let mut i: usize = 0;
        while i < ls.len()
            invariant
                i <= ls@.len(),
                views(ls@) == lines(content@),
                vars.wf(),
                value_views(vars@) == env_vars(views(ls@).subrange(0, i as int)),
            decreases ls.len() - i,
        {
            proof {
                let s = views(ls@).subrange(0, i + 1);
                assert(s.drop_last() =~= views(ls@).subrange(0, i as int));
                assert(s.last() == ls@[i as int]@);
            }
            match split_once_char(ls[i].as_str(), '=') {
                Some((k, v)) => {
                    let kt = trim_str(k.as_str());
                    let vt = trim_str(v.as_str());
                    let ghost before = vars@;
                    vars.insert(kt, vt);
                    proof {
                        assert(value_views(vars@) =~= value_views(before).insert(kt@, vt@));
                    }
                },
                None => {},
            }
            i = i + 1;
        }
        proof {
            assert(views(ls@).subrange(0, ls@.len() as int) =~= views(ls@));
        }
        let env = Environment {
            name: owned("imported"),
            variables: vars,
            base_url: None,
            headers: StrMap::new(),
            auth: None,
            is_active: false,
        };
        let ghost before = self.envs_view();
        self.add("imported", env);
        proof {
            reveal_strlit("imported");
            assert(self.envs_view().remove("imported"@) =~= before.remove("imported"@));
        }
        Ok(())
    }

    /// Add environments read from a JSON export, each under its name, in order.
    pub fn import_json(&mut self, entries: Vec<ImportedEnvironment>)
        requires old(self).wf(),
        ensures
            final(self).wf(),
            final(self).active_name() == old(self).active_name(),
            forall|k: Seq<char>| #[trigger] final(self).envs_view().contains_key(k) <==>
                (old(self).envs_view().contains_key(k) || exists|j: int| 0 <= j < entries@.len() && entries@[j].name@ == k),
    {
        let n = entries.len();
        let mut i: usize = 0;
        let ghost orig = self.envs_view();
        while i < n
            invariant
                n == entries@.len(),
                i <= n,
                self.wf(),
                self.active_name() == old(self).active_name(),
                forall|k: Seq<char>| #[trigger] self.envs_view().contains_key(k) <==>
                    (orig.contains_key(k) || exists|j: int| 0 <= j < i && entries@[j].name@ == k),
            decreases n - i,
        {
            let e = &entries[i];
            let mut vars: StrMap<String> = StrMap::new();
            let mut t: usize = 0;
            while t < e.values.len()
                invariant
                    t <= e.values@.len(),
                    vars.wf(),
                decreases e.values.len() - t,
            {
                vars.insert(e.values[t].0.clone(), e.values[t].1.clone());
                t = t + 1;
            }
            let name = e.name.clone();
            let env = Environment {
                name: e.name.clone(),
                variables: vars,
                base_url: match &e.base_url {
                    Some(b) => Some(b.clone()),
                    None => None,
                },
                headers: StrMap::new(),
                auth: None,
                is_active: false,
            };
            let ghost before = self.envs_view();
            self.add(name.as_str(), env);
            proof {
                assert forall|k: Seq<char>| #[trigger] self.envs_view().contains_key(k) <==>
                    (orig.contains_key(k) || exists|j: int| 0 <= j < i + 1 && entries@[j].name@ == k) by {
                    if k == name@ {
                        assert(entries@[i as int].name@ == k);
                    }
                    if exists|j: int| 0 <= j < i + 1 && entries@[j].name@ == k {
                        let j = choose|j: int| 0 <= j < i + 1 && entries@[j].name@ == k;
                        if j < i {
                            assert(before.contains_key(k));
                        }
                    }
                }
            }
            i = i + 1;
        }
    }

    /// The `.env` text of an environment; see `env_text`.
    pub fn export_env(env: &Environment) -> (r: String)
        ensures r@ == env_text(env.variables.entries()),
    {
        let mut out = owned("");
        proof {
            reveal_strlit("");
        }
        let n = env.variables.len();
        let mut i: usize = 0;
        while i < n
            invariant
                i <= n,
                n == env.variables.entries().len(),
                out@ == env_text(env.variables.entries().subrange(0, i as int)),
            decreases n - i,
        {
            let (k, v) = env.variables.entry_at(i);
            proof {
                let s = env.variables.entries().subrange(0, i + 1);
                assert(s.drop_last() =~= env.variables.entries().subrange(0, i as int));
            }
            out.append(k.as_str());
            out.append("=");
            out.append(v.as_str());
            out.append("\n");
            i = i + 1;
        }
        proof {
            assert(env.variables.entries().subrange(0, n as int) =~= env.variables.entries());
        }
        out
    }

    /// The export of the environment under `name`: `.env` text, or the pretty
    /// JSON text of `env_to_json`. An unknown name, and the YAML and
    /// Postman formats, are refused.
    pub fn export(&self, name: &str, format: EnvironmentFormat) -> (r: Result<String, ApiError>)
        requires self.wf(),
        ensures
            !self.envs_view().contains_key(name@) ==> (r matches Err(ApiError(m)) && m@ == "Environment not found: "@ + name@),
            self.envs_view().contains_key(name@) ==> match format {
                EnvironmentFormat::ENV => r matches Ok(t) && t@ == env_text(self.envs_view()[name@].variables.entries()),
                EnvironmentFormat::JSON => r matches Ok(t) && exists|v: JsonValue|
                    #[trigger] env_json_value(v, self.envs_view()[name@].name@,
                        self.envs_view()[name@].variables.entries(), self.envs_view()[name@].base_url)
                    && t@ == json_pretty(v),
                EnvironmentFormat::YAML => r matches Err(ApiError(m)) && m@ == "YAML export not yet implemented"@,
                EnvironmentFormat::Postman => r matches Err(ApiError(m)) && m@ == "Postman export not yet implemented"@,
            },
    {
        let env = match self.environments.get(name) {
            Some(e) => e,
            None => {
                return Err(ApiError(concat2("Environment not found: ", name)));
            },
        };
        match format {
            EnvironmentFormat::ENV => Ok(Self::export_env(env)),
            EnvironmentFormat::JSON => {
                let v = env_to_json(env);
                let t = write_json_pretty(&v);
                Ok(t)
            },
            EnvironmentFormat::YAML => Err(ApiError(owned("YAML export not yet implemented"))),
            EnvironmentFormat::Postman => Err(ApiError(owned("Postman export not yet implemented"))),
        }
    }
}

/// The error for an import format that is not read: YAML and Postman.
pub fn import_format_error(format: EnvironmentFormat) -> (r: Option<ApiError>)
    ensures
        match format {
            EnvironmentFormat::YAML => r matches Some(ApiError(m)) && m@ == "YAML import not yet implemented"@,
            EnvironmentFormat::Postman => r matches Some(ApiError(m))
                && m@ == "Postman environment import not yet implemented"@,
            _ => r is None,
        },
{
    match format {
        EnvironmentFormat::YAML => Some(ApiError(owned("YAML import not yet implemented"))),
        EnvironmentFormat::Postman => Some(ApiError(owned("Postman environment import not yet implemented"))),
        _ => None,
    }
}

} // verus!
