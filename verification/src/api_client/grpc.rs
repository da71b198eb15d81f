//! gRPC as data: requests, responses and service descriptions, and the
//! reading of a request's target. Connecting and calling are outside the
//! library. Durations are in milliseconds; a proto file is named by its path.
use vstd::prelude::*;
use crate::api_client::{APIClientConfig, ApiError};
use crate::strmap::StrMap;
use crate::text::{before_char, chars_of, lemma_before_char, next_char, owned, slice_string};

verus! {

/// A gRPC request. The service is written `endpoint/service`.
pub struct GRPCRequest {
    pub service: String,
    pub method: String,
    pub request_data: Vec<u8>,
    pub metadata: StrMap<String>,
    pub timeout_ms: Option<u64>,
}

/// A gRPC response.
pub struct GRPCResponse {
    pub response_data: Vec<u8>,
    pub metadata: StrMap<String>,
    pub status: u16,
    pub duration_ms: u64,
}

/// A service and its methods.
#[derive(Debug)]
pub struct GRPCService {
    pub name: String,
    pub methods: Vec<GRPCMethod>,
    pub proto_file: Option<String>,
}

/// A method of a service.
#[derive(Debug)]
pub struct GRPCMethod {
    pub name: String,
    pub input_type: String,
    pub output_type: String,
    pub client_streaming: bool,
    pub server_streaming: bool,
}

/// The endpoint and the service that a request's service names: the text
/// before the first '/', and the text after it up to the next '/'.
pub open spec fn target_of(s: Seq<char>) -> (Seq<char>, Seq<char>) {
    let e = before_char(s, '/');
    (e, before_char(s.subrange(e.len() as int + 1, s.len() as int), '/'))
}

/// The endpoint and service a request is for. A service with no '/' is
/// refused.
pub fn service_target(service: &str) -> (r: Result<(String, String), ApiError>)
    ensures
        match r {
            Ok((e, s)) => service@.contains('/') && e@ == target_of(service@).0 && s@ == target_of(service@).1,
            Err(ApiError(m)) => !service@.contains('/')
                && m@ == "Invalid service format. Expected 'endpoint/service'"@,
        },
{
    let v = chars_of(service);
    let i = next_char(&v, 0, '/');
    if i == v.len() {
        proof {
            if service@.contains('/') {
                let j = choose|j: int| 0 <= j < service@.len() && service@[j] == '/';
                assert(v@[j] == '/');
            }
        }
        return Err(ApiError(owned("Invalid service format. Expected 'endpoint/service'")));
    }
    let k = next_char(&v, i + 1, '/');
    proof {
        lemma_before_char(v@, '/', i as int);
        let rest = v@.subrange(i + 1, v@.len() as int);
        assert forall|j: int| 0 <= j < k - (i + 1) implies rest[j] != '/' by {
            assert(rest[j] == v@[j + i + 1]);
        }
        if k < v@.len() {
            assert(rest[k - (i + 1)] == v@[k as int]);
        }
        lemma_before_char(rest, '/', k - (i + 1));
        assert(rest.subrange(0, k - (i + 1)) =~= v@.subrange(i + 1, k as int));
        assert(service@[i as int] == '/');
    }
    let e = slice_string(&v, 0, i);
    let s = slice_string(&v, i + 1, k);
    Ok((e, s))
}

/// The gRPC client: its configuration and the services it knows (the
/// connections are kept beside it).
pub struct GRPCClient {
    config: APIClientConfig,
    services: StrMap<GRPCService>,
}

impl GRPCClient {
    pub closed spec fn services_view(&self) -> Map<Seq<char>, GRPCService> {
        self.services@
    }

    /// A client knowing no services.
    pub fn new(config: APIClientConfig) -> (r: Result<Self, ApiError>)
        ensures r matches Ok(c) && c.services_view() == Map::<Seq<char>, GRPCService>::empty(),
    {
        Ok(GRPCClient { config, services: StrMap::new() })
    }

    /// Send a request: its service must name an endpoint and a service; once
    /// the connection is made (the caller's), dynamic calls are not supported
    /// yet and the request is refused.
    pub fn send(&self, request: &GRPCRequest) -> (r: Result<GRPCResponse, ApiError>)
        ensures
            !request.service@.contains('/') ==>
                (r matches Err(ApiError(m)) && m@ == "Invalid service format. Expected 'endpoint/service'"@),
            request.service@.contains('/') ==>
                (r matches Err(ApiError(m)) && m@ == "gRPC dynamic calls not yet implemented"@),
    {
        match service_target(request.service.as_str()) {
            Ok(_) => Err(ApiError(owned("gRPC dynamic calls not yet implemented"))),
            Err(e) => Err(e),
        }
    }

    /// The service a proto file describes, once the file is read: proto files
    /// are not parsed yet, so it is "ExampleService" with no methods.
    pub fn load_proto(&self, path: String) -> (r: Result<GRPCService, ApiError>)
        ensures
            r matches Ok(s) && s.name@ == "ExampleService"@ && s.methods@.len() == 0 && s.proto_file == Some(path),
    {
        Ok(GRPCService { name: owned("ExampleService"), methods: Vec::new(), proto_file: Some(path) })
    }

    /// Generating client code belongs to the build: refused.
    pub fn generate_client(&self, proto_path: &str, output_dir: &str) -> (r: Result<(), ApiError>)
        ensures r matches Err(ApiError(m)) && m@ == "Proto code generation should be done in build.rs with tonic_build"@,
    {
        Err(ApiError(owned("Proto code generation should be done in build.rs with tonic_build")))
    }

    /// Converting JSON to a message is not supported: refused.
    pub fn json_to_proto(&self, json: &str, message_type: &str) -> (r: Result<Vec<u8>, ApiError>)
        ensures r matches Err(ApiError(m)) && m@ == "JSON to protobuf conversion not implemented"@,
    {
        Err(ApiError(owned("JSON to protobuf conversion not implemented")))
    }

    /// Converting a message to JSON is not supported: refused.
    pub fn proto_to_json(&self, data: &[u8], message_type: &str) -> (r: Result<String, ApiError>)
        ensures r matches Err(ApiError(m)) && m@ == "Protobuf to JSON conversion not implemented"@,
    {
        Err(ApiError(owned("Protobuf to JSON conversion not implemented")))
    }
}

} // verus!
