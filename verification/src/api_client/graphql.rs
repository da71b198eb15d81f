//! GraphQL as data: queries, responses, errors and schema types, the request
//! a query is sent as, and the query text the client builds. JSON values
//! (variables, response data, extensions, defaults) are kept as JSON text.
use vstd::prelude::*;
use crate::api_client::rest::{GraphQLBody, HTTPMethod, RESTRequest, RequestBody};
use crate::database::{join, join_strings};
use crate::strmap::StrMap;
use crate::text::{concat2, owned, replace_all, replace_str, views};

verus! {

/// A GraphQL query addressed to an endpoint.
pub struct GraphQLQuery {
    pub query: String,
    pub variables: Option<String>,
    pub operation_name: Option<String>,
    pub url: String,
    pub headers: StrMap<String>,
}

/// A GraphQL response; the duration is in milliseconds.
pub struct GraphQLResponse {
    pub data: Option<String>,
    pub errors: Vec<GraphQLError>,
    pub extensions: Option<String>,
    pub status: u16,
    pub duration_ms: u64,
}

/// A GraphQL error.
#[derive(Debug)]
pub struct GraphQLError {
    pub message: String,
    pub locations: Option<Vec<GraphQLErrorLocation>>,
    pub path: Option<Vec<String>>,
    pub extensions: Option<String>,
}

/// Where in the query an error is.
#[derive(Debug, Clone, Copy, PartialEq, Eq, Structural)]
pub struct GraphQLErrorLocation {
    pub line: usize,
    pub column: usize,
}

/// A schema: its types by name and the names of its root types.
pub struct GraphQLSchema {
    pub types: StrMap<GraphQLType>,
    pub query_type: String,
    pub mutation_type: Option<String>,
    pub subscription_type: Option<String>,
}

/// A schema type.
pub struct GraphQLType {
    pub name: String,
    pub kind: GraphQLTypeKind,
    pub description: Option<String>,
    pub fields: Vec<GraphQLField>,
    pub input_fields: Vec<GraphQLInputField>,
    pub interfaces: Vec<String>,
    pub possible_types: Vec<String>,
    pub enum_values: Vec<GraphQLEnumValue>,
}

/// Kind of a schema type.
#[derive(Debug, Clone, Copy, PartialEq, Eq, Structural)]
pub enum GraphQLTypeKind {
    Scalar,
    Object,
    Interface,
    Union,
    Enum,
    InputObject,
    List,
    NonNull,
}

/// A field of an object type.
pub struct GraphQLField {
    pub name: String,
    pub description: Option<String>,
    pub args: Vec<GraphQLInputValue>,
    pub type_ref: GraphQLTypeRef,
    pub deprecated: Option<String>,
}

/// A field of an input type; the default value is JSON text.
pub struct GraphQLInputField {
    pub name: String,
    pub description: Option<String>,
    pub type_ref: GraphQLTypeRef,
    pub default_value: Option<String>,
}

/// An argument; the default value is JSON text.
pub struct GraphQLInputValue {
    pub name: String,
    pub description: Option<String>,
    pub type_ref: GraphQLTypeRef,
    pub default_value: Option<String>,
}

/// A reference to a type, wrapped (list, non-null) or named.
#[derive(Debug)]
pub struct GraphQLTypeRef {
    pub name: String,
    pub kind: GraphQLTypeKind,
    pub of_type: Option<Box<GraphQLTypeRef>>,
}

/// A value of an enum type.
#[derive(Debug)]
pub struct GraphQLEnumValue {
    pub name: String,
    pub description: Option<String>,
    pub deprecation_reason: Option<String>,
}

/// The request a query is sent as: a POST of the query, its variables and
/// operation name to the query's URL with the query's headers, following
/// redirects, with no parameters, authentication or timeout.
pub fn query_request(query: GraphQLQuery) -> (r: RESTRequest)
    ensures
        r.method == HTTPMethod::POST,
        r.url == query.url,
        r.headers == query.headers,
        r.params.wf() && r.params@ == Map::<Seq<char>, String>::empty(),
        r.body matches Some(RequestBody::GraphQL(b)) && b.query == query.query
            && b.variables == query.variables && b.operation_name == query.operation_name,
        r.auth is None,
        r.timeout_ms is None,
        r.follow_redirects,
{
    let GraphQLQuery { query, variables, operation_name, url, headers } = query;
    RESTRequest {
        method: HTTPMethod::POST,
        url,
        headers,
        params: StrMap::new(),
        body: Some(RequestBody::GraphQL(GraphQLBody { query, variables, operation_name })),
        auth: None,
        timeout_ms: None,
        follow_redirects: true,
    }
}

/// The schema that introspection describes by the names of its root types;
/// the query type is "Query" when none is named. Types are not read.
pub fn schema_from_roots(query_type: Option<String>, mutation_type: Option<String>,
    subscription_type: Option<String>) -> (s: GraphQLSchema)
    ensures
        s.types.wf() && s.types@ == Map::<Seq<char>, GraphQLType>::empty(),
        s.query_type@ == (match query_type { Some(q) => q@, None => "Query"@ }),
        s.mutation_type == mutation_type,
        s.subscription_type == subscription_type,
{
    let q = match query_type {
        Some(q) => q,
        None => owned("Query"),
    };
    GraphQLSchema { types: StrMap::new(), query_type: q, mutation_type, subscription_type }
}

/// The query that selects `fields` of `target_type`, one field per line.
pub open spec fn query_text(target_type: Seq<char>, fields: Seq<Seq<char>>) -> Seq<char> {
    "query {\n  "@ + target_type + "{\n    "@ + join(fields, "\n    "@) + "\n  }\n}"@
}

/// The query that selects `fields` of `target_type`; see `query_text`.
pub fn generate_query(target_type: &str, fields: &Vec<String>) -> (r: String)
    ensures r@ == query_text(target_type@, views(fields@)),
{
    let joined = join_strings(fields, "\n    ");
    let a = concat2("query {\n  ", target_type);
    let b = concat2(a.as_str(), "{\n    ");
    let c = concat2(b.as_str(), joined.as_str());
    let d = concat2(c.as_str(), "\n  }\n}");
    d
}

/// The placeholder that stands for a variable in a query: `$` and its name.
pub open spec fn variable_placeholder(name: Seq<char>) -> Seq<char> {
    "$"@ + name
}

/// `query` with each variable's placeholder replaced by the variable's JSON
/// text, the variables taken in order.
pub open spec fn format_with(query: Seq<char>, vars: Seq<(Seq<char>, Seq<char>)>) -> Seq<char>
    decreases vars.len(),
{
    if vars.len() == 0 {
        query
    } else {
        replace_all(format_with(query, vars.drop_last()), variable_placeholder(vars.last().0), vars.last().1)
    }
}

/// The pairs' views.
pub open spec fn pair_views(v: Seq<(String, String)>) -> Seq<(Seq<char>, Seq<char>)> {
    v.map_values(|p: (String, String)| (p.0@, p.1@))
}

/// `query` with the variables put in; each variable is its name and its
/// value as JSON text. See `format_with`.
pub fn format_query(query: &str, variables: &Vec<(String, String)>) -> (r: String)
    ensures r@ == format_with(query@, pair_views(variables@)),
{
    let mut out = owned(query);
    let mut i: usize = 0;
    while i < variables.len()
        invariant
            i <= variables@.len(),
            out@ == format_with(query@, pair_views(variables@).subrange(0, i as int)),
        decreases variables.len() - i,
    {
        proof {
            reveal_strlit("$");
            let s = pair_views(variables@).subrange(0, i + 1);
            assert(s.drop_last() =~= pair_views(variables@).subrange(0, i as int));
            assert(s.last() == (variables@[i as int].0@, variables@[i as int].1@));
        }
        let pat = concat2("$", variables[i].0.as_str());
        out = replace_str(out.as_str(), pat.as_str(), variables[i].1.as_str());
        i = i + 1;
    }
    proof {
        assert(pair_views(variables@).subrange(0, variables@.len() as int) =~= pair_views(variables@));
    }
    out
}

} // verus!
