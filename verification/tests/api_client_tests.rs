use parsec::api_client::collections::{export_curl, APICollection, CollectionManager, CollectionRequest};
use parsec::api_client::environments::{Environment, EnvironmentFormat, EnvironmentManager};
use parsec::api_client::graphql::{format_query, generate_query};
use parsec::api_client::grpc::service_target;
use parsec::api_client::rest::{auth_effect, Auth, AuthEffect, HTTPMethod, RESTRequest, RequestBody};
use parsec::api_client::websocket::{close_frame, WebSocketConnection, WebSocketMessage};
use parsec::api_client::{ApiError, CollectionFormat};
use parsec::strmap::StrMap;

fn env_with(vars: &[(&str, &str)], base_url: Option<&str>) -> Environment {
    let mut variables = StrMap::new();
    for (k, v) in vars {
        variables.insert(k.to_string(), v.to_string());
    }
    Environment {
        name: "dev".to_string(),
        variables,
        base_url: base_url.map(|b| b.to_string()),
        headers: StrMap::new(),
        auth: None,
        is_active: false,
    }
}

#[test]
fn method_from_name_in_any_case() {
    assert_eq!(HTTPMethod::from("post"), HTTPMethod::POST);
    assert_eq!(HTTPMethod::from("Delete"), HTTPMethod::DELETE);
    assert_eq!(HTTPMethod::from("unknown"), HTTPMethod::GET);
    assert_eq!(HTTPMethod::OPTIONS.as_str(), "OPTIONS");
}

#[test]
fn oauth2_sends_type_and_token() {
    let e = auth_effect(&Auth::OAuth2 { token: "abc".to_string(), token_type: "Bearer".to_string() });
    match e {
        AuthEffect::Header(k, v) => {
            assert_eq!(k, "Authorization");
            assert_eq!(v, "Bearer abc");
        }
        _ => panic!("expected a header"),
    }
}

#[test]
fn resolve_variables_with_active_environment() {
    let mut m = EnvironmentManager::new();
    m.add("dev", env_with(&[("host", "example.com"), ("id", "7")], Some("https://api")));
    assert!(m.resolve_variables("{{host}}/{{id}}").is_ok());
    assert_eq!(m.resolve_variables("{{host}}/{{id}}").unwrap(), "{{host}}/{{id}}");
    m.set_active(Some("dev")).unwrap();
    assert_eq!(m.resolve_variables("{{base_url}}/u/{{id}}?h={{host}}").unwrap(), "https://api/u/7?h=example.com");
}

#[test]
fn set_active_unknown_environment_is_refused() {
    let mut m = EnvironmentManager::new();
    match m.set_active(Some("prod")) {
        Err(ApiError(msg)) => assert_eq!(msg, "Environment not found: prod"),
        Ok(()) => panic!("expected an error"),
    }
}

#[test]
fn apply_to_request_fills_url_headers_and_auth() {
    let mut m = EnvironmentManager::new();
    let mut env = env_with(&[("token", "s3cret")], None);
    env.auth = Some(Auth::Bearer("t".to_string()));
    m.add("dev", env);
    m.set_active(Some("dev")).unwrap();
    let mut headers = StrMap::new();
    headers.insert("X-Token".to_string(), "{{token}}".to_string());
    let req = RESTRequest {
        method: HTTPMethod::GET,
        url: "https://h/{{token}}".to_string(),
        headers,
        params: StrMap::new(),
        body: Some(RequestBody::Text("t={{token}}".to_string())),
        auth: None,
        timeout_ms: None,
        follow_redirects: true,
    };
    let out = m.apply_to_request(req).unwrap();
    assert_eq!(out.url, "https://h/s3cret");
    assert_eq!(out.headers.get("X-Token").unwrap(), "s3cret");
    match out.body {
        Some(RequestBody::Text(t)) => assert_eq!(t, "t=s3cret"),
        _ => panic!("expected a text body"),
    }
    match out.auth {
        Some(Auth::Bearer(t)) => assert_eq!(t, "t"),
        _ => panic!("expected the environment's auth"),
    }
}

#[test]
fn import_and_export_env_text() {
    let mut m = EnvironmentManager::new();
    m.import_env("A = 1\nnot a pair\nB=two=2\n").unwrap();
    let text = m.export("imported", EnvironmentFormat::ENV).unwrap();
    assert_eq!(text, "A=1\nB=two=2\n");
    match m.export("missing", EnvironmentFormat::ENV) {
        Err(ApiError(msg)) => assert_eq!(msg, "Environment not found: missing"),
        Ok(_) => panic!("expected an error"),
    }
    match m.export("imported", EnvironmentFormat::YAML) {
        Err(ApiError(msg)) => assert_eq!(msg, "YAML export not yet implemented"),
        Ok(_) => panic!("expected an error"),
    }
}

#[test]
fn export_env_as_json() {
    let mut m = EnvironmentManager::new();
    m.add("dev", env_with(&[("k", "v")], None));
    let text = m.export("dev", EnvironmentFormat::JSON).unwrap();
    let v: serde_json::Value = serde_json::from_str(&text).unwrap();
    assert_eq!(v["name"], "dev");
    assert_eq!(v["values"]["k"], "v");
    assert!(v["baseUrl"].is_null());
}

#[test]
fn generate_query_text() {
    let q = generate_query("user", &vec!["id".to_string(), "name".to_string()]);
    assert_eq!(q, "query {\n  user{\n    id\n    name\n  }\n}");
}

#[test]
fn format_query_puts_in_variables() {
    let q = format_query("query($id) { a($id) }", &vec![("id".to_string(), "5".to_string())]);
    assert_eq!(q, "query(5) { a(5) }");
}

#[test]
fn grpc_service_target() {
    let (e, s) = service_target("localhost:50051/Greeter/extra").unwrap();
    assert_eq!(e, "localhost:50051");
    assert_eq!(s, "Greeter");
    match service_target("nothing") {
        Err(ApiError(msg)) => assert_eq!(msg, "Invalid service format. Expected 'endpoint/service'"),
        Ok(_) => panic!("expected an error"),
    }
}

#[test]
fn curl_export_of_a_collection() {
    let mut headers = StrMap::new();
    headers.insert("Accept".to_string(), "*/*".to_string());
    let req = CollectionRequest {
        name: "r".to_string(),
        method: HTTPMethod::POST,
        url: "https://x".to_string(),
        headers,
        params: StrMap::new(),
        body: Some(RequestBody::JSON("{\"a\":1}".to_string())),
        auth: None,
        tests: None,
        scripts: None,
    };
    let c = APICollection {
        name: "c".to_string(),
        description: None,
        folders: vec![],
        requests: vec![req],
        variables: StrMap::new(),
        auth: None,
        version: "2.1.0".to_string(),
    };
    assert_eq!(export_curl(&c), "curl -X POST 'https://x' -H 'Accept: */*' -d '{\"a\":1}'\n\n");
    let mut m = CollectionManager::new();
    m.add(c);
    assert!(m.export("c", CollectionFormat::Curl).is_ok());
    match m.export("c", CollectionFormat::HAR) {
        Err(ApiError(msg)) => assert_eq!(msg, "HAR export not yet implemented"),
        Ok(_) => panic!("expected an error"),
    }
}

#[test]
fn websocket_send_requires_open_connection() {
    let mut c = WebSocketConnection::new("ws://x", "id1".to_string());
    assert!(c.send_text("hi".to_string()).is_ok());
    let out = c.take_outgoing();
    assert_eq!(out.len(), 1);
    c.mark_disconnected();
    match c.send_text("again".to_string()) {
        Err(ApiError(msg)) => assert_eq!(msg, "WebSocket not connected"),
        Ok(()) => panic!("expected an error"),
    }
    c.deliver(WebSocketMessage::Text("in".to_string()));
    assert!(matches!(c.receive(), Some(WebSocketMessage::Text(_))));
    assert!(c.receive().is_none());
    assert_eq!(close_frame(Some(1000), Some("bye".to_string())), Some((1000, "bye".to_string())));
    assert_eq!(close_frame(Some(1000), None), None);
}

use parsec::api_client::grpc::{GRPCClient, GRPCRequest};
use parsec::api_client::APIClientConfig;

#[test]
fn grpc_client_refusals() {
    let c = GRPCClient::new(APIClientConfig::default()).unwrap();
    let mut req = GRPCRequest {
        service: "noslash".to_string(),
        method: "M".to_string(),
        request_data: vec![],
        metadata: StrMap::new(),
        timeout_ms: None,
    };
    assert_eq!(c.send(&req).err().unwrap().0, "Invalid service format. Expected 'endpoint/service'");
    req.service = "localhost:50051/Greeter".to_string();
    assert_eq!(c.send(&req).err().unwrap().0, "gRPC dynamic calls not yet implemented");
    let s = c.load_proto("a.proto".to_string()).unwrap();
    assert_eq!((s.name.as_str(), s.methods.len(), s.proto_file.as_deref()), ("ExampleService", 0, Some("a.proto")));
    assert!(c.generate_client("a.proto", "out").is_err());
    assert_eq!(c.json_to_proto("{}", "T").unwrap_err().0, "JSON to protobuf conversion not implemented");
    assert_eq!(c.proto_to_json(&[1], "T").unwrap_err().0, "Protobuf to JSON conversion not implemented");
}
