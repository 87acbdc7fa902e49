use linutil_desktop::{
    compose_result, spawn_failure, Catalog, CatalogNode, Category, CommandExecutionResult,
    CommandResult, CommandSpec, CoreError, ExecutionCoordinator, ExecutionRequest, Session,
};

fn exec_node(name: &str, multi: bool, children: Vec<usize>, command: CommandSpec) -> CatalogNode {
    CatalogNode {
        name: name.to_string(),
        description: format!("About {}", name),
        task_list: String::new(),
        multi_select: multi,
        children,
        command,
    }
}

fn exec_catalog() -> Catalog {
    let utilities = Category {
        name: "Utilities".to_string(),
        nodes: vec![
            exec_node("root", false, vec![1, 3, 4], CommandSpec::Directory),
            exec_node("System", false, vec![2], CommandSpec::Directory),
            exec_node("Cleanup", true, vec![], CommandSpec::Raw("echo clean".to_string())),
            exec_node("Update", true, vec![], CommandSpec::Raw("echo ok".to_string())),
            exec_node("Pinned", false, vec![], CommandSpec::Raw("echo pinned".to_string())),
        ],
    };
    Catalog::new(vec![utilities]).unwrap()
}

fn exec_session() -> Session {
    Session::new(false, |_v: bool| exec_catalog())
}

/// Stands in for the worker: runs each dispatched request by echoing its text.
fn drain(s: &mut Session) -> Vec<CommandExecutionResult> {
    let mut out = Vec::new();
    for _ in 0..10 {
        if let Some(req) = s.dispatch_next() {
            let text = match &req.command {
                CommandSpec::Raw(t) => t.trim_start_matches("echo ").to_string() + "\n",
                _ => String::new(),
            };
            s.complete(compose_result(text, String::new(), true, Some(0), false));
        }
        if let Some(r) = s.poll_result() {
            out.push(r);
        }
    }
    out
}

#[test]
fn execute_update_yields_ok() {
    let mut s = exec_session();
    assert_eq!(s.execute(3), Ok(()));
    assert!(s.is_executing());
    let results = drain(&mut s);
    assert_eq!(results.len(), 1);
    assert!(results[0].success);
    assert!(results[0].output.contains("ok"));
    assert!(!s.is_executing());
}

#[test]
fn execute_directory_is_not_executable() {
    let mut s = exec_session();
    assert_eq!(s.execute(1), Err(CoreError::NotExecutable));
    assert_eq!(s.execute(0), Err(CoreError::NotExecutable));
    assert!(!s.is_executing());
    assert!(s.dispatch_next().is_none());
    assert!(s.poll_result().is_none());
}

#[test]
fn execute_unknown_node_is_not_found() {
    let mut s = exec_session();
    assert_eq!(s.execute(42), Err(CoreError::NotFound));
    assert!(s.dispatch_next().is_none());
}

#[test]
fn execute_selected_keeps_submission_order() {
    let mut s = exec_session();
    s.toggle_selection(3).unwrap();
    s.toggle_selection(2).unwrap();
    assert_eq!(s.execute_selected(), Ok(2));
    let results = drain(&mut s);
    assert_eq!(results.len(), 2);
    assert_eq!(results[0].output, "ok\n");
    assert_eq!(results[1].output, "clean\n");
    assert_eq!(s.execute_selected(), Ok(0));
}

#[test]
fn only_one_request_is_with_the_worker() {
    let mut s = exec_session();
    s.execute(3).unwrap();
    s.execute(2).unwrap();
    let first = s.dispatch_next().unwrap();
    assert_eq!(first.node, 3);
    assert_eq!(first.category, "Utilities");
    assert!(s.dispatch_next().is_none());
    s.complete(compose_result("a".to_string(), String::new(), true, Some(0), false));
    let second = s.dispatch_next().unwrap();
    assert_eq!(second.node, 2);
}

#[test]
fn executing_flag_drops_on_first_result() {
    let mut s = exec_session();
    s.execute(3).unwrap();
    s.execute(2).unwrap();
    s.dispatch_next().unwrap();
    s.complete(compose_result("a".to_string(), String::new(), true, Some(0), false));
    assert!(s.is_executing());
    assert!(s.poll_result().is_some());
    assert!(!s.is_executing());
    assert!(s.poll_result().is_none());
}

#[test]
fn toggle_twice_restores_membership() {
    let mut s = exec_session();
    s.toggle_selection(3).unwrap();
    assert!(s.current_items().iter().any(|e| e.id == 3 && e.is_multi_selected));
    s.toggle_selection(3).unwrap();
    assert!(s.current_items().iter().all(|e| !e.is_multi_selected));
    assert_eq!(s.execute_selected(), Ok(0));
}

#[test]
fn grouping_node_with_multi_select_is_toggled_but_refused_at_run() {
    let catalog = Catalog::new(vec![Category {
        name: "T".to_string(),
        nodes: vec![
            exec_node("root", false, vec![1, 2], CommandSpec::Directory),
            exec_node("Empty group", true, vec![], CommandSpec::Directory),
            exec_node("Job", true, vec![], CommandSpec::Raw("echo job".to_string())),
        ],
    }])
    .unwrap();
    let mut s = Session::new(false, move |_v: bool| catalog);
    s.toggle_selection(2).unwrap();
    s.toggle_selection(1).unwrap();
    assert!(s.current_items().iter().all(|e| e.is_multi_selected));
    assert_eq!(s.execute_selected(), Err(CoreError::NotExecutable));
    assert!(s.dispatch_next().is_none());
    assert!(s.current_items().iter().all(|e| e.is_multi_selected));
    s.toggle_selection(1).unwrap();
    assert_eq!(s.execute_selected(), Ok(1));
    assert_eq!(s.dispatch_next().unwrap().node, 2);
}

#[test]
fn toggle_keeps_marking_order() {
    let mut s = exec_session();
    s.enter(1).unwrap();
    s.toggle_selection(3).unwrap();
    s.toggle_selection(2).unwrap();
    s.toggle_selection(3).unwrap();
    s.toggle_selection(3).unwrap();
    assert_eq!(s.execute_selected(), Ok(2));
    assert_eq!(s.dispatch_next().unwrap().node, 2);
}

#[test]
fn status_lines() {
    let ok = compose_result("x".to_string(), String::new(), true, Some(0), false);
    assert_eq!(linutil_desktop::status_line(&ok), "Command completed successfully");
    let bad = compose_result("x".to_string(), String::new(), false, Some(1), false);
    assert_eq!(linutil_desktop::status_line(&bad), "Command failed");
}

#[test]
fn toggle_without_multi_select_is_a_no_op() {
    let mut s = exec_session();
    s.toggle_selection(4).unwrap();
    s.toggle_selection(1).unwrap();
    assert!(s.current_items().iter().all(|e| !e.is_multi_selected));
    assert_eq!(s.toggle_selection(77), Err(CoreError::NotFound));
}

#[test]
fn selection_survives_navigation() {
    let mut s = exec_session();
    s.enter(1).unwrap();
    s.toggle_selection(2).unwrap();
    s.go_back();
    s.enter(1).unwrap();
    assert!(s.current_items()[0].is_multi_selected);
}

#[test]
fn compose_prefers_stdout() {
    let r = compose_result("out".to_string(), "err".to_string(), true, Some(0), false);
    assert!(r.success);
    assert_eq!(r.output, "out");
    assert_eq!(r.error, None);
    assert_eq!(r.exit_code, Some(0));
}

#[test]
fn compose_falls_back_to_stderr_and_reports_it_on_failure() {
    let r = compose_result(String::new(), "boom".to_string(), false, Some(2), false);
    assert!(!r.success);
    assert_eq!(r.output, "boom");
    assert_eq!(r.error, Some("boom".to_string()));
    assert_eq!(r.exit_code, Some(2));
}

#[test]
fn compose_uses_placeholder_when_silent() {
    let r = compose_result(String::new(), String::new(), true, Some(0), false);
    assert_eq!(r.output, "Command executed successfully");
    let r = compose_result(String::new(), String::new(), true, None, true);
    assert_eq!(r.output, "Script executed successfully");
}

#[test]
fn failed_run_with_stdout_keeps_stderr_as_error() {
    let r = compose_result("partial".to_string(), "bad".to_string(), false, Some(1), true);
    assert_eq!(r.output, "partial");
    assert_eq!(r.error, Some("bad".to_string()));
}

#[test]
fn spawn_failure_is_a_failed_result() {
    let r = spawn_failure("No such file or directory".to_string(), false);
    assert!(!r.success);
    assert_eq!(r.output, "Failed to execute command: No such file or directory");
    assert_eq!(r.error, Some("No such file or directory".to_string()));
    assert_eq!(r.exit_code, None);
    let r = spawn_failure("denied".to_string(), true);
    assert_eq!(r.output, "Failed to execute script: denied");
}

#[test]
fn command_result_drops_exit_code() {
    let r = compose_result(String::new(), "e".to_string(), false, Some(3), false);
    let c = CommandResult::from(r);
    assert!(!c.success);
    assert_eq!(c.output, "e");
    assert_eq!(c.error, Some("e".to_string()));
}

#[test]
fn coordinator_is_fifo() {
    let mut c = ExecutionCoordinator::new();
    for n in [7usize, 8, 9] {
        c.submit(ExecutionRequest { category: "C".to_string(), node: n, command: CommandSpec::Raw("x".to_string()) });
    }
    let mut order = Vec::new();
    for _ in 0..3 {
        let req = c.dispatch().unwrap();
        assert!(!c.has_dispatchable());
        c.complete(compose_result("y".to_string(), String::new(), true, Some(0), false));
        order.push(c.poll().unwrap().node);
        let _ = req;
    }
    assert_eq!(order, vec![7, 8, 9]);
    assert!(c.poll().is_none());
}

#[test]
fn complete_without_dispatch_is_ignored() {
    let mut c = ExecutionCoordinator::new();
    c.complete(compose_result("y".to_string(), String::new(), true, Some(0), false));
    assert!(c.poll().is_none());
    assert!(!c.is_executing());
}

#[test]
fn report_text_for_success_and_failure() {
    let ok = compose_result("done".to_string(), String::new(), true, Some(0), false);
    assert_eq!(linutil_desktop::report_text(&ok), "✅ Command executed successfully!\n\ndone");
    let bad = compose_result(String::new(), "nope".to_string(), false, Some(1), false);
    assert_eq!(linutil_desktop::report_text(&bad), "❌ Command failed!\n\nnope\n\nError: nope");
}

#[test]
fn plain_outcome_texts() {
    assert_eq!(linutil_desktop::plain_outcome("hi\n", "", true), Ok("Success:\nhi\n".to_string()));
    assert_eq!(linutil_desktop::plain_outcome("o", "e", false), Err("Error:\no\nStderr: e".to_string()));
}
