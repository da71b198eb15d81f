use parsec::accessibility::dyslexia::{syllables_from_matches, SyllableHighlighter};
use parsec::accessibility::keyboard_nav::{FocusableElement, KeyboardNavigation, NavigationEntry, NavigationHistory, NavigationMode};
use parsec::api_client::collections::{import_postman_v2, postman_from_json};
use parsec::api_client::environments::{env_to_json, environments_from_json, Environment, EnvironmentManager};
use parsec::api_client::rest::{response_from, HTTPMethod};
use parsec::cloud::docker::created_millis;
use parsec::collaboration::encryption::EncryptionManager;
use parsec::database::mongodb::{BsonKind, MongoDBConnection};
use parsec::database::query_runner::QueryRunner;
use parsec::debugging::breakpoint::Breakpoint;
use parsec::debugging::callstack::StackFrame;
use parsec::debugging::variables::{Variable, VariableScope};
use parsec::debugging::{AdapterConfig, DebugAdapter, DebugError, DebuggerConfig, DebuggerManager};
use parsec::design::icon_browser::IconBrowser;
use parsec::design::icon_packs::{feather_pack, fontawesome_pack, heroicons_pack, material_pack};
use parsec::json::JsonValue;
use parsec::strmap::StrMap;
use parsec::text::ascii_upper_text;

#[test]
fn encrypt_then_decrypt_gives_data_back() {
    let m = EncryptionManager::new();
    let data = b"collaboration edit".to_vec();
    let sealed = m.encrypt(&data).unwrap();
    assert_eq!(sealed.len(), 12 + data.len() + 16);
    assert_ne!(&sealed[12..12 + data.len()], &data[..]);
    assert_eq!(m.decrypt(&sealed).unwrap(), data);
}

#[test]
fn decrypt_refuses_tampered_and_short_messages() {
    let m = EncryptionManager::new();
    let mut sealed = m.encrypt(b"abc").unwrap();
    let last = sealed.len() - 1;
    sealed[last] ^= 1;
    assert!(m.decrypt(&sealed).is_err());
    assert!(m.decrypt(&[1, 2, 3]).is_err());
    let other = EncryptionManager::new();
    let sealed = m.encrypt(b"abc").unwrap();
    assert!(other.decrypt(&sealed).is_err());
}

#[test]
fn generated_key_pairs_are_full_and_fresh() {
    let m = EncryptionManager::new();
    let a = m.generate_keypair();
    let b = m.generate_keypair();
    assert_eq!(a.private_key.len(), 32);
    assert_eq!(a.public_key.len(), 32);
    assert_ne!(a.public_key, a.private_key);
    assert_ne!(a.private_key, b.private_key);
}

#[test]
fn syllables_of_a_word() {
    let h = SyllableHighlighter::new().unwrap();
    let s = h.highlight_syllables("hello");
    assert_eq!(s.len(), 2);
    assert_eq!((s[0].text.as_str(), s[0].start, s[0].end, s[0].highlight), ("ell", 1, 4, true));
    assert_eq!((s[1].text.as_str(), s[1].start, s[1].end), ("o", 4, 5));
    let t = h.highlight_syllables("strength");
    assert_eq!(t.len(), 1);
    assert_eq!((t[0].text.as_str(), t[0].start, t[0].end), ("ength", 3, 8));
    assert!(h.highlight_syllables("xyz").iter().all(|x| x.end <= 3));
}

#[test]
fn syllables_keep_the_rest_of_the_text() {
    let m = vec![(0usize, 2usize, "ab".to_string())];
    let s = syllables_from_matches("abcd", &m);
    assert_eq!(s.len(), 2);
    assert_eq!((s[1].text.as_str(), s[1].start, s[1].end, s[1].highlight), ("cd", 2, 4, false));
}

fn env(name: &str, vars: &[(&str, &str)], base: Option<&str>) -> Environment {
    let mut variables = StrMap::new();
    for (k, v) in vars {
        variables.insert(k.to_string(), v.to_string());
    }
    Environment {
        name: name.to_string(),
        variables,
        base_url: base.map(|b| b.to_string()),
        headers: StrMap::new(),
        auth: None,
        is_active: false,
    }
}

#[test]
fn environment_json_value_has_its_members() {
    let v = env_to_json(&env("dev", &[("a", "1"), ("b", "2")], Some("http://h")));
    match v {
        JsonValue::Object(fs) => {
            assert_eq!(fs.len(), 3);
            assert_eq!(fs[0].0, "name");
            assert_eq!(fs[1].0, "values");
            assert_eq!(fs[2].0, "baseUrl");
            match &fs[1].1 {
                JsonValue::Object(vs) => assert_eq!(vs.len(), 2),
                other => panic!("unexpected {:?}", other),
            }
        }
        other => panic!("unexpected {:?}", other),
    }
}

#[test]
fn export_then_import_json_keeps_environment() {
    let mut m = EnvironmentManager::new();
    m.add("dev", env("dev", &[("host", "example.org")], Some("http://x")));
    let text = m.export("dev", parsec::api_client::environments::EnvironmentFormat::JSON).unwrap();
    assert!(text.contains('\n'));
    let array = format!("[{}]", text);
    let es = environments_from_json(&array).unwrap();
    assert_eq!(es.len(), 1);
    assert_eq!(es[0].name, "dev");
    assert_eq!(es[0].values, vec![("host".to_string(), "example.org".to_string())]);
    assert_eq!(es[0].base_url.as_deref(), Some("http://x"));
}

#[test]
fn environments_from_json_skips_and_defaults() {
    let text = r#"[{"name":"a","values":{"k":"v","n":5}},{"name":"b"},{"values":{}},{"name":"c","values":{},"baseUrl":7}]"#;
    let es = environments_from_json(text).unwrap();
    assert_eq!(es.len(), 2);
    assert_eq!(es[0].name, "a");
    assert_eq!(es[0].values, vec![("k".to_string(), "v".to_string()), ("n".to_string(), "".to_string())]);
    assert!(es[0].base_url.is_none());
    assert_eq!(es[1].name, "c");
    assert!(es[1].base_url.is_none());
    assert_eq!(environments_from_json("{\"name\":\"a\"}").unwrap().len(), 0);
    assert!(!environments_from_json("not json").unwrap_err().0.is_empty());
}

#[test]
fn postman_collection_read_from_json() {
    let text = r#"{"info":{"name":"API","description":"d"},"item":[
        {"name":"folder","item":[]},
        {"name":"get user","request":{"method":"post","url":{"raw":"http://h/u"},
          "header":[{"key":"Content-Type","value":"application/json"},{"key":"X"}],
          "body":{"mode":"raw","raw":"{ \"a\" : 1 }"}}}]}"#;
    let (name, description, items) = postman_from_json(text).unwrap();
    assert_eq!(name.as_deref(), Some("API"));
    assert_eq!(description.as_deref(), Some("d"));
    assert_eq!(items.len(), 2);
    assert!(items[0].is_folder);
    assert!(!items[1].is_folder);
    assert_eq!(items[1].method.as_deref(), Some("post"));
    assert_eq!(items[1].url_raw.as_deref(), Some("http://h/u"));
    assert_eq!(items[1].headers.len(), 2);
    assert_eq!(items[1].headers[1], (Some("X".to_string()), None));
    let body = items[1].body.as_ref().unwrap();
    assert_eq!(body.mode.as_deref(), Some("raw"));
    assert_eq!(body.raw_json.as_deref(), Some("{\"a\":1}"));
    let c = import_postman_v2(name, description, items).unwrap();
    assert_eq!(c.requests.len(), 1);
    assert_eq!(c.requests[0].method, HTTPMethod::POST);
    assert!(postman_from_json("{").is_err());
}

#[test]
fn response_reads_json_body() {
    let r = response_from(200, "OK".to_string(), StrMap::new(), b"{\"ok\":true}".to_vec(), 12, "http://h".to_string());
    assert_eq!(r.size, 11);
    match r.body {
        Some(JsonValue::Object(fs)) => {
            assert_eq!(fs[0].0, "ok");
            assert!(matches!(fs[0].1, JsonValue::Bool(true)));
        }
        other => panic!("unexpected {:?}", other),
    }
    assert_eq!(r.raw_body.as_deref(), Some(&b"{\"ok\":true}"[..]));
    let t = response_from(500, "Internal Server Error".to_string(), StrMap::new(), b"oops".to_vec(), 3, "u".to_string());
    assert!(t.body.is_none());
    assert_eq!(t.size, 4);
}

#[test]
fn method_names_read_back_in_any_case() {
    let all = [
        HTTPMethod::GET,
        HTTPMethod::POST,
        HTTPMethod::PUT,
        HTTPMethod::DELETE,
        HTTPMethod::PATCH,
        HTTPMethod::HEAD,
        HTTPMethod::OPTIONS,
    ];
    for m in all {
        assert_eq!(HTTPMethod::from(m.as_str()), m);
        assert_eq!(HTTPMethod::from(m.as_str().to_lowercase().as_str()), m);
    }
    assert_eq!(HTTPMethod::from("FOO"), HTTPMethod::GET);
    assert_eq!(HTTPMethod::from("opt\u{131}ons"), HTTPMethod::OPTIONS);
    assert_eq!(ascii_upper_text("pAtch-1").as_deref(), Some("PATCH-1"));
    assert!(ascii_upper_text("\u{e9}").is_none());
}

fn element(id: &str) -> FocusableElement {
    FocusableElement {
        id: id.to_string(),
        element_type: "button".to_string(),
        label: id.to_string(),
        parent: None,
        children: vec![],
        enabled: true,
        visible: true,
        bounds: None,
    }
}

#[test]
fn prev_after_next_returns_focus() {
    let mut nav = KeyboardNavigation::new(NavigationMode::Standard);
    for id in ["c", "a", "b"] {
        nav.register_element(element(id));
    }
    nav.focus("b", 1).unwrap();
    nav.next(2).unwrap();
    assert_eq!(nav.focused().as_deref(), Some("c"));
    nav.prev(3).unwrap();
    assert_eq!(nav.focused().as_deref(), Some("b"));
    nav.focus("c", 4).unwrap();
    nav.next(5).unwrap();
    assert_eq!(nav.focused().as_deref(), Some("a"));
    nav.prev(6).unwrap();
    assert_eq!(nav.focused().as_deref(), Some("c"));
}

fn entry(id: &str) -> NavigationEntry {
    NavigationEntry { element_id: id.to_string(), element_type: "t".to_string(), timestamp: 0, path: id.to_string() }
}

#[test]
fn history_keeps_at_most_its_capacity() {
    let mut h = NavigationHistory::new(2);
    h.add_entry(entry("a"));
    h.add_entry(entry("b"));
    h.add_entry(entry("c"));
    assert_eq!(h.back().unwrap().element_id, "b");
    assert!(h.back().is_none());
}

#[test]
fn query_history_is_bounded() {
    let mut r = QueryRunner::new(2);
    r.record_query("db", "select 1", 1);
    r.record_query("db", "select 2", 1);
    r.record_query("db", "select 3", 1);
    let h = r.get_history("db");
    assert_eq!(h.len(), 2);
    assert_eq!(h[0].query, "select 3");
}

#[test]
fn creation_time_in_milliseconds() {
    assert_eq!(created_millis(1_700_000_000, 5), 1_700_000_000_000);
    assert_eq!(created_millis(-86_400, 5), -86_400_000);
    assert_eq!(created_millis(i64::MAX, 7), 7);
}

#[test]
fn builtin_icon_sets() {
    let h = heroicons_pack(42);
    assert_eq!(h.icons.len(), 6);
    assert_eq!(h.icons[0].id, "heroicons-outline-academic-cap");
    assert_eq!(h.icons[1].id, "heroicons-solid-academic-cap");
    assert!(h.icons[1].svg.starts_with("<svg xmlns=\"http://www.w3.org/2000/svg\" viewBox=\"0 0 24 24\" fill=\"currentColor\""));
    assert!(h.icons[0].svg.ends_with("\" />\n                </svg>"));
    assert_eq!(h.icons[5].tags, vec!["archive".to_string(), "heroicons".to_string(), "solid".to_string()]);
    assert_eq!(h.icons[4].created_at, 42);
    assert_eq!(h.categories[1].icon_count, 3);
    let f = fontawesome_pack(7);
    assert_eq!(f.icons.len(), 3);
    assert_eq!(f.icons[2].id, "fa-github");
    assert_eq!(f.icons[2].category, "fa-brands");
    assert_eq!(f.icons[2].width, 512);
    assert_eq!(f.license, "CC BY 4.0");
    let m = material_pack(3);
    assert_eq!(m.icons.len(), 3);
    assert_eq!(m.icons[0].id, "material-home");
    assert_eq!(m.icons[2].tags, vec!["settings".to_string(), "material".to_string()]);
    assert!(matches!(m.icons[1].variant, IconVariant::Filled));
    assert_eq!(m.icons[0].popularity, 1000);
    assert_eq!(m.license, "Apache 2.0");
    assert_eq!(m.variants.len(), 3);
    assert!(m.icons[0].svg.starts_with("<svg xmlns=\"http://www.w3.org/2000/svg\" viewBox=\"0 0 24 24\" width=\"24\" height=\"24\">"));
    let fe = feather_pack(3);
    assert_eq!(fe.icons[2].id, "feather-alert-circle");
    assert_eq!(fe.icons[0].category, "general");
    assert!(fe.icons[0].svg.contains("stroke-width=\"2\""));
    assert_eq!(fe.version, "4.29.0");
    let mut b = IconBrowser::new(4);
    b.load_builtin_sets();
    assert_eq!(b.get_set("material").unwrap().icons.len(), 3);
    assert_eq!(b.get_set("feather").unwrap().author, "Cole Bemis");
    assert_eq!(b.get_set("heroicons").unwrap().icons.len(), 6);
    assert_eq!(b.get_set("fontawesome").unwrap().name, "Font Awesome");
}

#[test]
fn mongodb_needs_a_connection() {
    let mut c = MongoDBConnection::new("m".to_string(), "mongodb://h".to_string(), "db".to_string());
    assert_eq!(c.list_tables(vec!["x".to_string()]).unwrap_err().0, "Not connected");
    assert_eq!(c.get_table_schema("x", None).unwrap_err().0, "Not connected");
    c.mark_connected();
    let ts = c.list_tables(vec!["users".to_string(), "orders".to_string()]).unwrap();
    assert_eq!(ts.len(), 2);
    assert_eq!(ts[1].name, "orders");
    let s = c
        .get_table_schema("users", Some(vec![("_id".to_string(), BsonKind::Other), ("age".to_string(), BsonKind::Int32)]))
        .unwrap();
    assert_eq!(s.columns.len(), 2);
    assert!(s.columns[0].is_primary_key);
    assert_eq!(s.columns[1].data_type, "integer");
    assert_eq!(s.primary_key, vec!["_id".to_string()]);
    let empty = c.get_table_schema("none", None).unwrap();
    assert!(empty.columns.is_empty() && empty.primary_key.is_empty());
}

struct FixedAdapter;

impl DebugAdapter for FixedAdapter {
    fn name(&self) -> &str {
        "fixed"
    }
    fn languages(&self) -> Vec<String> {
        vec!["rust".to_string()]
    }
    fn start(&self, _config: AdapterConfig) -> Result<String, DebugError> {
        Ok("s0".to_string())
    }
    fn stop(&self, _session_id: &str) -> Result<(), DebugError> {
        Ok(())
    }
    fn attach(&self, process_id: u32) -> Result<String, DebugError> {
        if process_id == 0 {
            Err(DebugError("no such process".to_string()))
        } else {
            Ok(format!("attached-{}", process_id))
        }
    }
    fn launch(&self, program: &str, _args: Vec<String>) -> Result<String, DebugError> {
        Ok(format!("run-{}", program))
    }
    fn pause(&self, _session_id: &str) -> Result<(), DebugError> {
        Ok(())
    }
    fn resume(&self, _session_id: &str) -> Result<(), DebugError> {
        Ok(())
    }
    fn step_over(&self, _session_id: &str, _thread_id: usize) -> Result<(), DebugError> {
        Ok(())
    }
    fn step_into(&self, _session_id: &str, _thread_id: usize) -> Result<(), DebugError> {
        Ok(())
    }
    fn step_out(&self, _session_id: &str, _thread_id: usize) -> Result<(), DebugError> {
        Ok(())
    }
    fn set_breakpoint(&self, _session_id: &str, _bp: Breakpoint) -> Result<(), DebugError> {
        Ok(())
    }
    fn remove_breakpoint(&self, _session_id: &str, _bp_id: usize) -> Result<(), DebugError> {
        Ok(())
    }
    fn get_breakpoints(&self, _session_id: &str) -> Result<Vec<Breakpoint>, DebugError> {
        Ok(vec![])
    }
    fn get_stack_trace(&self, _session_id: &str, _thread_id: usize) -> Result<Vec<StackFrame>, DebugError> {
        Ok(vec![])
    }
    fn get_scopes(&self, _session_id: &str, _frame_id: usize) -> Result<Vec<VariableScope>, DebugError> {
        Ok(vec![])
    }
    fn get_variables(&self, _session_id: &str, _var_ref: usize) -> Result<Vec<Variable>, DebugError> {
        Ok(vec![])
    }
    fn evaluate(&self, _session_id: &str, _expression: &str, _frame_id: Option<usize>) -> Result<Variable, DebugError> {
        Err(DebugError("not evaluated".to_string()))
    }
    fn terminate(&self, _session_id: &str) -> Result<(), DebugError> {
        Ok(())
    }
    fn disconnect(&self, _session_id: &str) -> Result<(), DebugError> {
        Ok(())
    }
}

#[test]
fn launch_and_attach_through_an_adapter() {
    let mut t = DebuggerManager::new(DebuggerConfig::with_data_dir(None)).unwrap();
    let a = FixedAdapter;
    assert_eq!(t.launch("fixed", &a, "main", vec![]).unwrap_err().0, "Adapter not found: fixed");
    t.register_adapter("fixed", vec!["rust".to_string()]);
    let s = t.launch("fixed", &a, "main", vec![]).unwrap();
    assert_eq!(s.id, "run-main");
    assert_eq!(s.name, "Debug main");
    assert_eq!(t.get_session("run-main").unwrap().adapter, "fixed");
    let p = t.attach("fixed", &a, 7).unwrap();
    assert_eq!(p.name, "Attach to PID 7");
    assert_eq!(p.process_id, Some(7));
    assert_eq!(t.attach("fixed", &a, 0).unwrap_err().0, "no such process");
    assert!(t.get_session("attached-0").is_none());
    assert!(t.pause("run-main", &a).is_ok());
    assert_eq!(t.pause("nope", &a).unwrap_err().0, "Session not found");
    assert_eq!(t.evaluate("run-main", "x", None, &a).unwrap_err().0, "not evaluated");
    assert!(t.get_stack_trace("run-main", 1, &a).unwrap().is_empty());
    assert!(t.breakpoints().get_breakpoints().is_empty());
}

use parsec::design::custom_sets::{custom_icon_set, parse_svg_dimensions};
use parsec::design::icon_browser::IconVariant;
use parsec::design::DesignError;

#[test]
fn svg_dimensions_read_from_attributes() {
    assert_eq!(parse_svg_dimensions("<svg/>"), (24, 24, (0, 0, 24, 24)));
    assert_eq!(parse_svg_dimensions("<svg width=\"32\" height=\"16\">"), (32, 16, (0, 0, 24, 24)));
    assert_eq!(parse_svg_dimensions("<svg width=\"32\" viewBox=\"1 2 48 64\">"), (48, 64, (1, 2, 48, 64)));
    assert_eq!(parse_svg_dimensions("<svg width=\"99999999999\">"), (24, 24, (0, 0, 24, 24)));
}

#[test]
fn custom_set_from_description() {
    let files = vec![("star".to_string(), "<svg width=\"10\" height=\"12\"/>".to_string())];
    let p = custom_icon_set("mine", "{\"name\":\"Mine\",\"category\":\"shapes\",\"version\":3}", files, 9).unwrap();
    assert_eq!(p.id, "mine");
    assert_eq!(p.name, "Mine");
    assert_eq!(p.version, "1.0.0");
    assert_eq!(p.author, "Unknown");
    assert_eq!(p.icons.len(), 1);
    assert_eq!(p.icons[0].id, "mine-star");
    assert_eq!(p.icons[0].category, "shapes");
    assert_eq!((p.icons[0].width, p.icons[0].height), (10, 12));
    assert!(matches!(&p.variants[0], IconVariant::Custom(c) if c == "custom"));
    let empty = custom_icon_set("x", "{}", vec![], 0).unwrap();
    assert_eq!(empty.name, "x");
    assert!(matches!(custom_icon_set("x", "nope", vec![], 0), Err(DesignError::InvalidFormat(_))));
}

use parsec::customization::layouts::{default_panels, PanelLocation};

#[test]
fn default_layout_panels() {
    let v = default_panels();
    assert_eq!(v.len(), 2);
    assert_eq!(v[0].location, PanelLocation::Left);
    assert_eq!(v[0].size, 250);
    assert_eq!(v[0].active_tab.as_deref(), Some("explorer"));
    assert_eq!(v[0].tabs[2].title, "Source Control");
    assert_eq!(v[0].tabs[2].icon.as_deref(), Some("git"));
    assert_eq!(v[1].location, PanelLocation::Bottom);
    assert_eq!(v[1].tabs[1].icon.as_deref(), Some("warning"));
    assert_eq!(v[1].tabs[3].content_type, "debug");
}

use parsec::accessibility::keyboard_nav::{MODIFIERS_EMPTY, MODIFIER_CONTROL};

#[test]
fn default_shortcuts_listed_in_global_context() {
    let nav = KeyboardNavigation::new(NavigationMode::Standard);
    let list = nav.shortcuts().current_bindings();
    assert_eq!(list.len(), 15);
    assert_eq!(list[0].id, "tab");
    assert_eq!(list[14].id, "ctrl-end");
    assert_eq!(nav.shortcuts().get_binding("Home", MODIFIER_CONTROL).unwrap().command, "first");
    assert_eq!(nav.shortcuts().get_binding("Enter", MODIFIERS_EMPTY).unwrap().command, "activate");
}
