//! The decisions of the server's main loop, apart from the waiting and the
//! sending that surround them.
use vstd::prelude::*;
use crate::text::{decimal_string, decimal_text};

verus! {

// ---------------------------------------------------------------------------
// One step of the loop
// ---------------------------------------------------------------------------

/// What the loop got when it waited for the next event.
pub enum Received {
    /// A channel other than the client's was closed.
    ChannelClosed,
    /// The client's channel was closed.
    ClientGone,
    /// A request from the client.
    Request,
    /// A notification from the client, with its method.
    Notification(String),
    /// A response from the client to a request of the server.
    Response,
}

/// What the loop does with what it got.
#[derive(Debug)]
pub enum LoopStep {
    /// Stop: the client asked the server to exit.
    Exit,
    /// Stop with an error, described by the text.
    Fail(String),
    /// Hand the request to the request handlers.
    HandleRequest,
    /// Hand the notification to the notification handlers.
    HandleNotification,
    /// Match the response with the request it answers.
    CompleteRequest,
}

/// The method of the notification that asks the server to exit.
pub open spec fn exit_method() -> Seq<char> {
    "exit"@
}

pub open spec fn client_gone_message() -> Seq<char> {
    "client exited without proper shutdown sequence"@
}

pub open spec fn channel_closed_message() -> Seq<char> {
    "A receiver has been dropped, something panicked!"@
}

/// The step that the loop takes for what it received.
pub fn next_step(received: &Received) -> (step: LoopStep)
    ensures
        match received {
            Received::ChannelClosed => step matches LoopStep::Fail(m) && m@
                == channel_closed_message(),
            Received::ClientGone => step matches LoopStep::Fail(m) && m@ == client_gone_message(),
            Received::Request => step matches LoopStep::HandleRequest,
            Received::Notification(method) => if method@ == exit_method() {
                step matches LoopStep::Exit
            } else {
                step matches LoopStep::HandleNotification
            },
            Received::Response => step matches LoopStep::CompleteRequest,
        },
{
    match received {
        Received::ChannelClosed => LoopStep::Fail(
            String::from_str("A receiver has been dropped, something panicked!"),
        ),
        Received::ClientGone => LoopStep::Fail(
            String::from_str("client exited without proper shutdown sequence"),
        ),
        Received::Request => LoopStep::HandleRequest,
        Received::Notification(method) => {
            let exit = String::from_str("exit");
            if *method == exit {
                LoopStep::Exit
            } else {
                LoopStep::HandleNotification
            }
        },
        Received::Response => LoopStep::CompleteRequest,
    }
}

// ---------------------------------------------------------------------------
// After an event
// ---------------------------------------------------------------------------

/// What the loop knows at the end of handling an event. Each operation queue
/// (workspace fetch, build-data fetch, proc-macro fetch, cache priming) is
/// given by whether an operation is requested and whether one is running; a
/// queue starts the requested operation when none is running.
#[derive(Debug, Clone, Copy)]
pub struct TurnInputs {
    /// The server was quiescent before the event.
    pub was_quiescent: bool,
    /// The server is quiescent now.
    pub is_quiescent: bool,
    /// Processing the pending changes changed the state.
    pub state_changed: bool,
    /// Documents were opened or closed in memory.
    pub memdocs_changed: bool,
    pub check_on_save: bool,
    pub flycheck_workspace: bool,
    pub prefill_caches: bool,
    pub semantic_tokens_refresh: bool,
    pub code_lens_refresh: bool,
    pub inlay_hints_refresh: bool,
    pub diagnostics_refresh: bool,
    /// The client pulls diagnostics itself.
    pub text_document_diagnostic: bool,
    pub publish_diagnostics: bool,
    pub test_explorer: bool,
    /// Workspaces are reloaded when their configuration changes.
    pub cargo_autoreload: bool,
    /// A workspace discovery command is configured.
    pub discover_workspace_config: bool,
    pub fetch_workspaces_requested: bool,
    pub fetch_workspaces_running: bool,
    pub build_data_requested: bool,
    pub build_data_running: bool,
    pub proc_macros_requested: bool,
    pub proc_macros_running: bool,
    pub prime_caches_requested: bool,
    pub prime_caches_running: bool,
    /// How long the turn took, in nanoseconds.
    pub turn_nanos: u128,
}

/// Which actions the loop takes at the end of handling an event.
#[derive(Debug, Clone, Copy, PartialEq, Eq, Structural)]
pub struct TurnFlags {
    pub restart_flycheck: bool,
    /// Request cache priming (for the cause `prime_caches_cause`).
    pub request_prime_caches: bool,
    pub refresh_semantic_tokens: bool,
    pub refresh_code_lens: bool,
    pub refresh_inlay_hints: bool,
    pub refresh_diagnostics: bool,
    pub update_diagnostics: bool,
    pub update_tests: bool,
    pub start_fetch_workspaces: bool,
    pub start_fetch_build_data: bool,
    pub start_fetch_proc_macros: bool,
    pub start_prime_caches: bool,
    /// Warn that the turn took longer than 100 ms.
    pub warn_slow_turn: bool,
}

/// The actions at the end of a turn, with the cause given to a request for
/// cache priming.
#[derive(Debug, Clone)]
pub struct TurnActions {
    pub flags: TurnFlags,
    pub prime_caches_cause: Option<String>,
}

/// The cause given when cache priming is requested because the server
/// became quiescent.
pub open spec fn became_quiescent_cause() -> Seq<char> {
    "became quiescent"@
}

/// The actions at the end of a turn. When the server has just become
/// quiescent it starts checking (if configured) and requests cache priming;
/// when it is quiescent and something changed it refreshes what the client
/// supports and updates diagnostics and tests. Then the queues start their
/// operations: a workspace fetch (when reloading or discovery is on), else,
/// unless a workspace fetch runs, a build-data fetch or else a proc-macro
/// fetch, and cache priming. A turn over 100 ms that started quiescent is
/// reported.
pub open spec fn turn_flags(t: TurnInputs) -> TurnFlags {
    let became = t.is_quiescent && !t.was_quiescent;
    let refresh = t.is_quiescent && (became || t.state_changed);
    let changed = t.is_quiescent && (became || t.state_changed || t.memdocs_changed);
    let request_prime = became && t.prefill_caches;
    let start_ws = (t.cargo_autoreload || t.discover_workspace_config)
        && t.fetch_workspaces_requested && !t.fetch_workspaces_running;
    let ws_busy = t.fetch_workspaces_running || start_ws;
    let start_bd = !ws_busy && t.build_data_requested && !t.build_data_running;
    TurnFlags {
        restart_flycheck: became && t.check_on_save && t.flycheck_workspace
            && !t.build_data_requested,
        request_prime_caches: request_prime,
        refresh_semantic_tokens: refresh && t.semantic_tokens_refresh,
        refresh_code_lens: refresh && t.code_lens_refresh,
        refresh_inlay_hints: refresh && t.inlay_hints_refresh,
        refresh_diagnostics: refresh && t.diagnostics_refresh,
        update_diagnostics: changed && !t.text_document_diagnostic && t.publish_diagnostics,
        update_tests: changed && t.test_explorer,
        start_fetch_workspaces: start_ws,
        start_fetch_build_data: start_bd,
        start_fetch_proc_macros: !ws_busy && !start_bd && t.proc_macros_requested
            && !t.proc_macros_running,
        start_prime_caches: (t.prime_caches_requested || request_prime)
            && !t.prime_caches_running,
        warn_slow_turn: t.turn_nanos > 100_000_000 && t.was_quiescent,
    }
}

/// The rules that the actions `f` at the end of a turn with inputs `t`
/// follow, each stated on its own:
/// - the client is asked to refresh a view it supports exactly when the
///   server is quiescent and it just became so or its state changed;
/// - diagnostics are pushed exactly when the server is quiescent, it just
///   became so or its state or documents changed, they are published, and
///   the client does not pull them itself; tests are updated on the same
///   changes when the test explorer is on;
/// - the initial check restarts only when the server just became quiescent,
///   checking on save covers the workspace, and no build-data fetch is
///   requested; cache priming is requested exactly when the server just
///   became quiescent and prefilling is on;
/// - no queue starts an operation while one of its own runs, and a queue
///   starts only what was requested; a workspace fetch starts exactly when
///   reloading or discovery is on and one is requested and none runs; while a
///   workspace fetch runs or starts, no build-data or proc-macro fetch starts;
///   otherwise a requested build-data fetch starts if none runs, and failing
///   that a requested proc-macro fetch; requested cache priming starts when
///   none runs;
/// - a slow turn is reported exactly when it took over 100 ms and the server
///   was quiescent before it.
pub open spec fn end_of_turn_rules(t: TurnInputs, f: TurnFlags) -> bool {
    let q = t.is_quiescent;
    let became = q && !t.was_quiescent;
    let refresh_due = q && (!t.was_quiescent || t.state_changed);
    let changed = q && (!t.was_quiescent || t.state_changed || t.memdocs_changed);
    let prime_wanted = t.prime_caches_requested || f.request_prime_caches;
    let ws_busy = t.fetch_workspaces_running || f.start_fetch_workspaces;
    &&& f.refresh_semantic_tokens == (refresh_due && t.semantic_tokens_refresh)
    &&& f.refresh_code_lens == (refresh_due && t.code_lens_refresh)
    &&& f.refresh_inlay_hints == (refresh_due && t.inlay_hints_refresh)
    &&& f.refresh_diagnostics == (refresh_due && t.diagnostics_refresh)
    &&& (t.text_document_diagnostic ==> !f.update_diagnostics)
    &&& (!t.publish_diagnostics ==> !f.update_diagnostics)
    &&& (changed && t.publish_diagnostics && !t.text_document_diagnostic ==> f.update_diagnostics)
    &&& (f.update_diagnostics ==> changed)
    &&& f.update_tests == (changed && t.test_explorer)
    &&& (t.build_data_requested ==> !f.restart_flycheck)
    &&& (f.restart_flycheck ==> became && t.check_on_save && t.flycheck_workspace)
    &&& (became && t.check_on_save && t.flycheck_workspace && !t.build_data_requested
        ==> f.restart_flycheck)
    &&& f.request_prime_caches == (became && t.prefill_caches)
    &&& (t.fetch_workspaces_running ==> !f.start_fetch_workspaces)
    &&& (t.build_data_running ==> !f.start_fetch_build_data)
    &&& (t.proc_macros_running ==> !f.start_fetch_proc_macros)
    &&& (t.prime_caches_running ==> !f.start_prime_caches)
    &&& (f.start_fetch_build_data ==> t.build_data_requested)
    &&& (f.start_fetch_proc_macros ==> t.proc_macros_requested)
    &&& (f.start_prime_caches ==> prime_wanted)
    &&& f.start_fetch_workspaces == ((t.cargo_autoreload || t.discover_workspace_config)
        && t.fetch_workspaces_requested && !t.fetch_workspaces_running)
    &&& (ws_busy ==> !f.start_fetch_build_data && !f.start_fetch_proc_macros)
    &&& !(f.start_fetch_build_data && f.start_fetch_proc_macros)
    &&& (!ws_busy && t.build_data_requested && !t.build_data_running ==> f.start_fetch_build_data)
    &&& (!ws_busy && !f.start_fetch_build_data && t.proc_macros_requested && !t.proc_macros_running
        ==> f.start_fetch_proc_macros)
    &&& (prime_wanted && !t.prime_caches_running ==> f.start_prime_caches)
    &&& f.warn_slow_turn == (t.was_quiescent && t.turn_nanos > 100_000_000)
}

/// The planned actions follow the end-of-turn rules, for every input.
pub proof fn lemma_end_of_turn_rules(t: TurnInputs)
    ensures
        end_of_turn_rules(t, turn_flags(t)),
{
}

/// Decides the actions at the end of a turn.
pub fn plan_turn(t: &TurnInputs) -> (a: TurnActions)
    ensures
        a.flags == turn_flags(*t),
        a.prime_caches_cause is Some <==> a.flags.request_prime_caches,
        a.prime_caches_cause matches Some(c) ==> c@ == became_quiescent_cause(),
        end_of_turn_rules(*t, a.flags),
{
    proof {
        lemma_end_of_turn_rules(*t);
    }
    let became_quiescent = t.is_quiescent && !t.was_quiescent;
    let client_refresh = t.is_quiescent && (became_quiescent || t.state_changed);
    let project_or_mem_docs_changed = t.is_quiescent && (became_quiescent || t.state_changed
        || t.memdocs_changed);
    let request_prime = became_quiescent && t.prefill_caches;
    let start_workspaces = (t.cargo_autoreload || t.discover_workspace_config)
        && t.fetch_workspaces_requested && !t.fetch_workspaces_running;
    let workspaces_busy = t.fetch_workspaces_running || start_workspaces;
    let start_build_data = !workspaces_busy && t.build_data_requested && !t.build_data_running;
    let start_proc_macros = !workspaces_busy && !start_build_data && t.proc_macros_requested
        && !t.proc_macros_running;
    let flags = TurnFlags {
        restart_flycheck: became_quiescent && t.check_on_save && t.flycheck_workspace
            && !t.build_data_requested,
        request_prime_caches: request_prime,
        refresh_semantic_tokens: client_refresh && t.semantic_tokens_refresh,
        refresh_code_lens: client_refresh && t.code_lens_refresh,
        refresh_inlay_hints: client_refresh && t.inlay_hints_refresh,
        refresh_diagnostics: client_refresh && t.diagnostics_refresh,
        update_diagnostics: project_or_mem_docs_changed && !t.text_document_diagnostic
            && t.publish_diagnostics,
        update_tests: project_or_mem_docs_changed && t.test_explorer,
        start_fetch_workspaces: start_workspaces,
        start_fetch_build_data: start_build_data,
        start_fetch_proc_macros: start_proc_macros,
        start_prime_caches: (t.prime_caches_requested || request_prime) && !t.prime_caches_running,
        warn_slow_turn: t.turn_nanos > 100_000_000 && t.was_quiescent,
    };
    let prime_caches_cause = if request_prime {
        Some(String::from_str("became quiescent"))
    } else {
        None
    };
    TurnActions { flags, prime_caches_cause }
}

/// A server that stays busy neither checks, primes, refreshes nor updates;
/// only the queues may start what was already requested.
pub proof fn lemma_busy_turn_is_quiet(t: TurnInputs)
    requires
        !t.is_quiescent,
    ensures
        ({
            let f = turn_flags(t);
            &&& !f.restart_flycheck && !f.request_prime_caches
            &&& !f.refresh_semantic_tokens && !f.refresh_code_lens
            &&& !f.refresh_inlay_hints && !f.refresh_diagnostics
            &&& !f.update_diagnostics && !f.update_tests
            &&& f.start_prime_caches ==> t.prime_caches_requested
        }),
{
}

/// At most one of the build-data and proc-macro fetches starts, and neither
/// while a workspace fetch runs or starts.
pub proof fn lemma_one_fetch_at_a_time(t: TurnInputs)
    ensures
        ({
            let f = turn_flags(t);
            &&& !(f.start_fetch_build_data && f.start_fetch_proc_macros)
            &&& (t.fetch_workspaces_running || f.start_fetch_workspaces) ==> !f.start_fetch_build_data
                && !f.start_fetch_proc_macros
        }),
{
}

// ---------------------------------------------------------------------------
// Shutting down
// ---------------------------------------------------------------------------

/// The error that the server ends with, from the error of its main loop and
/// that of its I/O threads: both, one line each, when both failed.
pub fn shutdown_error(loop_error: Option<String>, io_error: Option<String>) -> (r: Option<String>)
    ensures
        match (loop_error, io_error) {
            (Some(l), Some(j)) => r matches Some(m) && m@ == l@ + "\n"@ + j@,
            (None, Some(j)) => r matches Some(m) && m@ == j@,
            (Some(l), None) => r matches Some(m) && m@ == l@,
            (None, None) => r is None,
        },
{
    match (loop_error, io_error) {
        (Some(l), Some(j)) => {
            let mut m = l;
            m.append("\n");
            m.append(j.as_str());
            Some(m)
        },
        (None, Some(j)) => Some(j),
        (Some(l), None) => Some(l),
        (None, None) => None,
    }
}

// ---------------------------------------------------------------------------
// Progress of cache priming
// ---------------------------------------------------------------------------

/// Progress of priming the caches.
pub enum CachePrimingProgress {
    Begin,
    Report {
        crates_done: usize,
        crates_total: usize,
        crates_currently_indexing: Vec<String>,
        work_type: String,
    },
    End { cancelled: bool },
}

#[derive(Debug, Clone, Copy, PartialEq, Eq, Structural)]
pub enum ProgressState {
    Begin,
    Report,
    End,
}

/// The progress report to send to the client, and what follows an end.
pub struct ProgressUpdate {
    pub state: ProgressState,
    /// The token that identifies the progress to the client.
    pub token: String,
    pub title: String,
    pub message: Option<String>,
    /// Priming ended: the priming operation is complete.
    pub finished: bool,
    /// Priming was cancelled: it is requested again, for this reason.
    pub restart: Option<String>,
}

/// The message of a report: `"<done>/<total> (<crate>)"` while one crate is
/// indexed, `"<done>/<total> (<crate> + <n> more)"` while `n + 1` are, and
/// none while none is.
pub open spec fn report_message(done: nat, total: nat, names: Seq<Seq<char>>) -> Option<
    Seq<char>,
> {
    if names.len() == 0 {
        None
    } else if names.len() == 1 {
        Some(decimal_text(done) + "/"@ + decimal_text(total) + " ("@ + names[0] + ")"@)
    } else {
        Some(
            decimal_text(done) + "/"@ + decimal_text(total) + " ("@ + names[0] + " + "@
                + decimal_text((names.len() - 1) as nat) + " more)"@,
        )
    }
}

pub open spec fn indexing_title() -> Seq<char> {
    "Indexing"@
}

pub open spec fn priming_token() -> Seq<char> {
    "rustAnalyzer/cachePriming"@
}

pub open spec fn restart_cause() -> Seq<char> {
    "restart after cancellation"@
}

/// The report for a progress event.
pub fn progress_update(p: CachePrimingProgress) -> (u: ProgressUpdate)
    ensures
        u.token@ == priming_token(),
        match p {
            CachePrimingProgress::Begin => u.state == ProgressState::Begin && u.title@
                == indexing_title() && u.message is None && !u.finished && u.restart is None,
            CachePrimingProgress::Report {
                crates_done,
                crates_total,
                crates_currently_indexing,
                work_type,
            } => u.state == ProgressState::Report && u.title@ == work_type@ && !u.finished
                && u.restart is None && match report_message(
                crates_done as nat,
                crates_total as nat,
                crates_currently_indexing@.map_values(|s: String| s@),
            ) {
                None => u.message is None,
                Some(m) => u.message matches Some(x) && x@ == m,
            },
            CachePrimingProgress::End { cancelled } => u.state == ProgressState::End && u.title@
                == indexing_title() && u.message is None && u.finished && (if cancelled {
                u.restart matches Some(c) && c@ == restart_cause()
            } else {
                u.restart is None
            }),
        },
{
    match p {
        CachePrimingProgress::Begin => ProgressUpdate {
            state: ProgressState::Begin,
            token: String::from_str("rustAnalyzer/cachePriming"),
            title: String::from_str("Indexing"),
            message: None,
            finished: false,
            restart: None,
        },
        CachePrimingProgress::Report {
            crates_done,
            crates_total,
            crates_currently_indexing,
            work_type,
        } => {
            let ghost names = crates_currently_indexing@.map_values(|s: String| s@);
            let message = if crates_currently_indexing.len() == 0 {
                None
            } else {
                let mut m = decimal_string(crates_done);
                m.append("/");
                let total = decimal_string(crates_total);
                m.append(total.as_str());
                m.append(" (");
                m.append(crates_currently_indexing[0].as_str());
                if crates_currently_indexing.len() == 1 {
                    m.append(")");
                } else {
                    m.append(" + ");
                    let more = decimal_string(crates_currently_indexing.len() - 1);
                    m.append(more.as_str());
                    m.append(" more)");
                }
                assert(names[0] == crates_currently_indexing@[0]@);
                Some(m)
            };
            ProgressUpdate {
                state: ProgressState::Report,
                token: String::from_str("rustAnalyzer/cachePriming"),
                title: work_type,
                message,
                finished: false,
                restart: None,
            }
        },
        CachePrimingProgress::End { cancelled } => ProgressUpdate {
            state: ProgressState::End,
            token: String::from_str("rustAnalyzer/cachePriming"),
            title: String::from_str("Indexing"),
            message: None,
            finished: true,
            restart: if cancelled {
                Some(String::from_str("restart after cancellation"))
            } else {
                None
            },
        },
    }
}

} // verus!
