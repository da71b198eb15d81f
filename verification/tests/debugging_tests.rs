use parsec::debugging::breakpoint::{BreakpointManager, FunctionBreakpoint};
use parsec::debugging::callstack::{CallstackManager, StackFrame};
use parsec::debugging::dap::{command_name, DAPMessage, DebugOperation, RequestSequencer};
use parsec::debugging::variables::{Variable, VariablesManager};
use parsec::debugging::watch::WatchManager;
use parsec::debugging::{DebugError, DebugState, DebuggerConfig, DebuggerManager};

fn frame(id: usize) -> StackFrame {
    StackFrame { id, name: format!("f{}", id), file: None, line: 1, column: 1, end_line: None }
}

fn var(name: &str, value: &str) -> Variable {
    Variable {
        name: name.to_string(),
        value: value.to_string(),
        variable_type: None,
        var_ref: 0,
        indexed_variables: None,
        named_variables: None,
    }
}

#[test]
fn breakpoint_ids_count_up_and_are_not_reused() {
    let mut m = BreakpointManager::new().unwrap();
    let a = m.add_breakpoint("a.rs".to_string(), 3).unwrap();
    let b = m.add_function_breakpoint("main".to_string()).unwrap();
    assert_eq!((a, b), (1, 2));
    m.remove_breakpoint(a).unwrap();
    let c = m.add_breakpoint("a.rs".to_string(), 4).unwrap();
    assert_eq!(c, 3);
    m.clear();
    assert_eq!(m.add_exception_breakpoint("panic".to_string()).unwrap(), 4);
    let _unused: Option<FunctionBreakpoint> = None;
}

#[test]
fn breakpoint_changes_and_file_filter() {
    let mut m = BreakpointManager::new().unwrap();
    let a = m.add_breakpoint("a.rs".to_string(), 3).unwrap();
    m.add_breakpoint("b.rs".to_string(), 1).unwrap();
    m.add_breakpoint("a.rs".to_string(), 9).unwrap();
    m.disable_breakpoint(a).unwrap();
    m.set_condition(a, Some("x > 1".to_string())).unwrap();
    m.verify_breakpoint(a, true).unwrap();
    let bp = m.get_breakpoint(a).unwrap();
    assert!(!bp.enabled && bp.verified);
    assert_eq!(bp.condition.as_deref(), Some("x > 1"));
    let in_a = m.get_breakpoints_for_file("a.rs");
    assert_eq!(in_a.iter().map(|b| b.line).collect::<Vec<_>>(), vec![3, 9]);
    assert_eq!(m.get_breakpoints().len(), 3);
    m.enable_breakpoint(99).unwrap();
    assert!(m.get_breakpoint(99).is_none());
}

#[test]
fn watch_toggle_twice_restores() {
    let mut w = WatchManager::new().unwrap();
    let id = w.add_watch("x + 1".to_string()).unwrap();
    assert!(!w.get_watch(id).unwrap().expanded);
    w.toggle_expanded(id).unwrap();
    assert!(w.get_watch(id).unwrap().expanded);
    w.toggle_expanded(id).unwrap();
    assert!(!w.get_watch(id).unwrap().expanded);
    w.update_value(id, "3".to_string()).unwrap();
    assert_eq!(w.get_watch(id).unwrap().last_value.as_deref(), Some("3"));
    w.remove_watch(id).unwrap();
    assert!(w.get_watches().is_empty());
}

#[test]
fn callstack_frames_by_thread() {
    let mut c = CallstackManager::new().unwrap();
    c.set_frames(1, vec![frame(10), frame(11)]);
    c.set_frames(2, vec![frame(20)]);
    assert_eq!(c.get_frames(1).unwrap().len(), 2);
    assert_eq!(c.get_frame(20).unwrap().name, "f20");
    assert!(c.get_frame(99).is_none());
    c.clear(1);
    assert!(c.get_frames(1).is_none());
    c.clear_all();
    assert!(c.get_frame(20).is_none());
}

#[test]
fn variables_first_by_name() {
    let mut v = VariablesManager::new().unwrap();
    v.set_variables(5, vec![var("a", "1"), var("b", "2"), var("a", "3")]);
    assert_eq!(v.get_variable(5, "a").unwrap().value, "1");
    assert!(v.get_variable(5, "z").is_none());
    assert!(v.get_variable(6, "a").is_none());
    v.clear_all();
    assert!(v.get_variables(5).is_none());
}

#[test]
fn session_table_routes_requests() {
    let mut t = DebuggerManager::new(DebuggerConfig::with_data_dir(None)).unwrap();
    match t.check_adapter("lldb") {
        Err(DebugError(m)) => assert_eq!(m, "Adapter not found: lldb"),
        Ok(()) => panic!("expected an error"),
    }
    t.register_adapter("lldb", vec!["rust".to_string(), "c".to_string()]);
    assert_eq!(t.get_adapter_for_language("c").as_deref(), Some("lldb"));
    assert!(t.get_adapter_for_language("go").is_none());
    let s = t.record_launch("s1".to_string(), "/bin/app", "lldb", 0);
    assert_eq!(s.name, "Debug /bin/app");
    assert_eq!(s.state, DebugState::Initializing);
    let a = t.record_attach("s2".to_string(), 42, "gdb", 0);
    assert_eq!(a.name, "Attach to PID 42");
    assert_eq!(t.route("s1").unwrap(), "lldb");
    match t.route("s2") {
        Err(DebugError(m)) => assert_eq!(m, "Adapter not found"),
        Ok(_) => panic!("expected an error"),
    }
    match t.route("nope") {
        Err(DebugError(m)) => assert_eq!(m, "Session not found"),
        Ok(_) => panic!("expected an error"),
    }
    assert_eq!(t.stop_session("s1").unwrap().as_deref(), Some("lldb"));
    assert!(t.get_session("s1").is_none());
    assert_eq!(t.list_sessions().len(), 1);
}

#[test]
fn dap_requests_are_numbered_and_awaited() {
    let mut s = RequestSequencer::new();
    match s.request(command_name(DebugOperation::StepOver), None) {
        DAPMessage::Request { seq, command, .. } => {
            assert_eq!(seq, 1);
            assert_eq!(command, "next");
        }
        _ => panic!("expected a request"),
    }
    s.request(command_name(DebugOperation::Resume), None);
    assert!(s.complete(1));
    assert!(!s.complete(1));
    assert!(s.complete(2));
    assert_eq!(command_name(DebugOperation::StepInto), "stepIn");
}

#[test]
fn debugger_config_defaults() {
    let c = DebuggerConfig::with_data_dir(Some("/d"));
    assert_eq!(c.adapters_dir, "/d/parsec/debug/adapters");
    assert_eq!(c.log_dir, "/d/parsec/debug/logs");
    assert_eq!(c.default_timeout_ms, 30000);
    assert_eq!(c.max_children, 100);
}
