use saldowsd::options::{output_format_supported, verbosity_level, Format, LogLevel};
use saldowsd::protocol::{initialize_result, InitializeParams, InitializeResult, ServerCapabilities, ServerInfo};
use saldowsd::server::{
    next_step, plan_turn, progress_update, shutdown_error, CachePrimingProgress, LoopStep,
    ProgressState, Received, TurnInputs,
};
use saldowsd::text::decimal_string;

#[test]
fn verbosity_levels() {
    assert_eq!(verbosity_level(0), LogLevel::Error);
    assert_eq!(verbosity_level(1), LogLevel::Warn);
    assert_eq!(verbosity_level(2), LogLevel::Info);
    assert_eq!(verbosity_level(3), LogLevel::Debug);
    assert_eq!(verbosity_level(4), LogLevel::Trace);
    assert_eq!(verbosity_level(255), LogLevel::Trace);
}

#[test]
fn formats() {
    assert_eq!(Format::default(), Format::Sbxml);
    assert!(!output_format_supported(Format::Sbxml));
    assert!(output_format_supported(Format::Tab));
    assert!(output_format_supported(Format::Eval));
}

#[test]
fn decimal_numerals() {
    assert_eq!(decimal_string(0), "0");
    assert_eq!(decimal_string(7), "7");
    assert_eq!(decimal_string(1024), "1024");
    assert_eq!(decimal_string(usize::MAX), usize::MAX.to_string());
}

#[test]
fn initialize_answer() {
    let r = initialize_result(ServerCapabilities {}, "1.2.3".to_string());
    assert_eq!(
        r.server_info,
        Some(ServerInfo { name: "saldowsd".to_string(), version: Some("1.2.3".to_string()) })
    );
    assert_eq!(r.offset_encoding, None);
    let d = InitializeResult::default();
    assert_eq!(d.server_info, None);
    let p = InitializeParams::default();
    assert_eq!(p.process_id, None);
    assert_eq!(p.client_info, None);
    assert_eq!(p.locale, None);
    assert!(p.initialization_options.is_none());
    assert_eq!(ServerInfo::default().name, "");
}

#[test]
fn loop_steps() {
    assert!(matches!(next_step(&Received::Notification("exit".to_string())), LoopStep::Exit));
    assert!(matches!(
        next_step(&Received::Notification("initialized".to_string())),
        LoopStep::HandleNotification
    ));
    assert!(matches!(next_step(&Received::Request), LoopStep::HandleRequest));
    assert!(matches!(next_step(&Received::Response), LoopStep::CompleteRequest));
    match next_step(&Received::ClientGone) {
        LoopStep::Fail(m) => assert_eq!(m, "client exited without proper shutdown sequence"),
        other => panic!("unexpected {:?}", other),
    }
    match next_step(&Received::ChannelClosed) {
        LoopStep::Fail(m) => assert_eq!(m, "A receiver has been dropped, something panicked!"),
        other => panic!("unexpected {:?}", other),
    }
}

fn quiet_inputs() -> TurnInputs {
    TurnInputs {
        was_quiescent: false,
        is_quiescent: true,
        state_changed: false,
        memdocs_changed: false,
        check_on_save: true,
        flycheck_workspace: true,
        prefill_caches: true,
        semantic_tokens_refresh: true,
        code_lens_refresh: false,
        inlay_hints_refresh: true,
        diagnostics_refresh: false,
        text_document_diagnostic: false,
        publish_diagnostics: true,
        test_explorer: false,
        cargo_autoreload: false,
        discover_workspace_config: false,
        fetch_workspaces_requested: false,
        fetch_workspaces_running: false,
        build_data_requested: false,
        build_data_running: false,
        proc_macros_requested: false,
        proc_macros_running: false,
        prime_caches_requested: false,
        prime_caches_running: false,
        turn_nanos: 5_000_000,
    }
}

#[test]
fn becoming_quiescent_starts_work() {
    let actions = plan_turn(&quiet_inputs());
    assert_eq!(actions.prime_caches_cause.as_deref(), Some("became quiescent"));
    let a = actions.flags;
    assert!(a.start_prime_caches);
    assert!(a.restart_flycheck);
    assert!(a.request_prime_caches);
    assert!(a.refresh_semantic_tokens);
    assert!(!a.refresh_code_lens);
    assert!(a.refresh_inlay_hints);
    assert!(!a.refresh_diagnostics);
    assert!(a.update_diagnostics);
    assert!(!a.update_tests);
    assert!(!a.warn_slow_turn);
}

#[test]
fn busy_turn_does_nothing() {
    let mut t = quiet_inputs();
    t.is_quiescent = false;
    t.was_quiescent = true;
    t.turn_nanos = 150_000_000;
    let actions = plan_turn(&t);
    assert_eq!(actions.prime_caches_cause, None);
    let a = actions.flags;
    assert!(!a.restart_flycheck && !a.request_prime_caches && !a.update_diagnostics);
    assert!(a.warn_slow_turn);
}

#[test]
fn staying_quiescent_with_changed_documents() {
    let mut t = quiet_inputs();
    t.was_quiescent = true;
    t.memdocs_changed = true;
    t.test_explorer = true;
    let a = plan_turn(&t).flags;
    assert!(!a.restart_flycheck && !a.request_prime_caches && !a.refresh_semantic_tokens);
    assert!(a.update_diagnostics && a.update_tests);
}

#[test]
fn progress_messages() {
    let u = progress_update(CachePrimingProgress::Report {
        crates_done: 3,
        crates_total: 10,
        crates_currently_indexing: vec!["core".to_string()],
        work_type: "Indexing".to_string(),
    });
    assert_eq!(u.state, ProgressState::Report);
    assert_eq!(u.token, "rustAnalyzer/cachePriming");
    assert_eq!(u.message.as_deref(), Some("3/10 (core)"));
    let u = progress_update(CachePrimingProgress::Report {
        crates_done: 4,
        crates_total: 12,
        crates_currently_indexing: vec!["std".to_string(), "alloc".to_string(), "core".to_string()],
        work_type: "Priming".to_string(),
    });
    assert_eq!(u.message.as_deref(), Some("4/12 (std + 2 more)"));
    assert_eq!(u.title, "Priming");
    let u = progress_update(CachePrimingProgress::Report {
        crates_done: 0,
        crates_total: 0,
        crates_currently_indexing: vec![],
        work_type: "Indexing".to_string(),
    });
    assert_eq!(u.message, None);
    let u = progress_update(CachePrimingProgress::Begin);
    assert_eq!(u.state, ProgressState::Begin);
    assert_eq!(u.title, "Indexing");
    let u = progress_update(CachePrimingProgress::End { cancelled: true });
    assert_eq!(u.state, ProgressState::End);
    assert!(u.finished);
    assert_eq!(u.restart.as_deref(), Some("restart after cancellation"));
    assert_eq!(u.token, "rustAnalyzer/cachePriming");
    let u = progress_update(CachePrimingProgress::End { cancelled: false });
    assert_eq!(u.restart, None);
}

#[test]
fn queues_start_one_fetch_at_a_time() {
    let mut t = quiet_inputs();
    t.was_quiescent = true;
    t.cargo_autoreload = true;
    t.fetch_workspaces_requested = true;
    t.build_data_requested = true;
    t.proc_macros_requested = true;
    let a = plan_turn(&t).flags;
    assert!(a.start_fetch_workspaces && !a.start_fetch_build_data && !a.start_fetch_proc_macros);
    t.cargo_autoreload = false;
    let a = plan_turn(&t).flags;
    assert!(!a.start_fetch_workspaces && a.start_fetch_build_data && !a.start_fetch_proc_macros);
    t.build_data_running = true;
    let a = plan_turn(&t).flags;
    assert!(!a.start_fetch_build_data && a.start_fetch_proc_macros);
    t.fetch_workspaces_running = true;
    let a = plan_turn(&t).flags;
    assert!(!a.start_fetch_build_data && !a.start_fetch_proc_macros);
    t.prime_caches_requested = true;
    let a = plan_turn(&t).flags;
    assert!(a.start_prime_caches);
    t.prime_caches_running = true;
    let a = plan_turn(&t).flags;
    assert!(!a.start_prime_caches);
}

#[test]
fn shutdown_errors_combine() {
    assert_eq!(shutdown_error(None, None), None);
    assert_eq!(shutdown_error(Some("loop".to_string()), None).as_deref(), Some("loop"));
    assert_eq!(shutdown_error(None, Some("io".to_string())).as_deref(), Some("io"));
    assert_eq!(
        shutdown_error(Some("loop".to_string()), Some("io".to_string())).as_deref(),
        Some("loop\nio")
    );
}
