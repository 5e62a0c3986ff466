use agent_remote::config::ServerConfig;
use agent_remote::error::{ErrorCode, ProtocolError};
use agent_remote::exec::{ExecOutcome, WorkingDir};
use agent_remote::fs_ops::{Content, Effect, Lookup};
use agent_remote::hash::hash_bytes;
use agent_remote::messages::{
    ExecOutput, ExecTermination, Request, RequestBody, RequestStatus, ResultBody,
    ServerMessage,
};
use agent_remote::record::{
    AnyOperationRecord, ExecDisposition, ExecOperationRecord, FsOperationRecord, OperationKind,
    PreparedRecord, TransferDirection, TransferOperationRecord,
};
use agent_remote::recovery::{action_for, resolve, RecoveryAction};
use agent_remote::server::{
    exec_answer, history_limit_from, op_kind_str, parse_failed,
    rejection_record, run_record, Admission, Decision, ExecRequest, Need, Observed, Reply, Server,
};
use agent_remote::store::{OperationStore, RequestEntry, StoredResult};
use agent_remote::text::message_line;
use agent_remote::workspace::Workspace;

fn server(store: OperationStore, limit: Option<usize>) -> Server {
    let ws = Workspace { root: "/w".to_string(), scratch_root: "/s".to_string() };
    Server::new(ws, store, ServerConfig::default(), limit).0
}

fn fresh() -> Server {
    server(OperationStore::new(), None)
}

fn request(id: &str, body: RequestBody) -> Request {
    Request { request_id: id.to_string(), body }
}

fn fs_record(n: u64, request_id: &str) -> AnyOperationRecord {
    AnyOperationRecord::Fs(FsOperationRecord {
        operation_id: format!("op-{n}"),
        request_id: request_id.to_string(),
        kind: OperationKind::Write,
        path: "f".to_string(),
        before_hash: None,
        after_hash: hash_bytes(b"x"),
        timestamp_ms: n,
    })
}

fn exec_record(n: u64) -> AnyOperationRecord {
    AnyOperationRecord::Exec(ExecOperationRecord {
        operation_id: format!("op-{n}"),
        request_id: format!("r{n}"),
        argv: vec!["ls".to_string()],
        cwd: None,
        profile: None,
        timeout_ms: None,
        disposition: ExecDisposition::Completed,
        exit_code: Some(0),
        duration_ms: 1,
        timestamp_ms: n,
        error: None,
        error_code: None,
        output_truncated: None,
    })
}

fn transfer_line(n: u64) -> AnyOperationRecord {
    AnyOperationRecord::Transfer(TransferOperationRecord {
        operation_id: format!("op-{n}"),
        request_id: format!("r{n}"),
        direction: TransferDirection::Upload,
        path: "f".to_string(),
        size: 1,
        sha256: "sha256:x".to_string(),
        duration_ms: 1,
        timestamp_ms: n,
    })
}

fn done(id: &str) -> RequestEntry {
    RequestEntry {
        request_id: id.to_string(),
        op_kind: "gc".to_string(),
        result: Some(StoredResult::Error(ProtocolError::new(ErrorCode::IoError, "x"))),
    }
}

fn open(id: &str) -> RequestEntry {
    RequestEntry { request_id: id.to_string(), op_kind: "gc".to_string(), result: None }
}

fn error_of(m: &ServerMessage) -> (String, ErrorCode, String) {
    match m {
        ServerMessage::Error { request_id, error } => {
            (request_id.clone(), error.code, error.message.clone())
        }
        _ => panic!("no error"),
    }
}

fn refusal(d: Decision) -> (ErrorCode, String) {
    match d {
        Decision::Answer(Err(e)) => (e.code, e.message),
        _ => panic!("not refused"),
    }
}

#[test]
fn a_finished_request_is_replayed_and_not_carried_out_again() {
    let mut s = fresh();
    assert!(matches!(s.recall("r1"), Admission::New));
    let req = request("r1", RequestBody::History { limit: None });
    assert!(s.claim(&req, Ok(())).is_ok());
    match s.recall("r1") {
        Admission::Fresh(m) => assert_eq!(
            error_of(&m),
            (
                "r1".to_string(),
                ErrorCode::InvalidRequest,
                "request already in progress".to_string()
            )
        ),
        _ => panic!("carried out twice"),
    }
    let result = match s.decide(&req.body, Observed::Nothing) {
        Decision::Answer(r) => r,
        _ => panic!("not answered"),
    };
    let at = match s.finish("r1", result, Ok(())) {
        Reply::Stored(i) => i,
        _ => panic!("not stored"),
    };
    assert!(matches!(
        s.stored_answer(at),
        Some(ServerMessage::Result { request_id, result: ResultBody::History { .. } }) if request_id == "r1"
    ));
    assert!(matches!(
        s.recall("r1"),
        Admission::Stored(ServerMessage::Result { result: ResultBody::History { .. }, .. })
    ));
}

#[test]
fn a_refused_request_is_refused_alike_again() {
    let mut s = fresh();
    let req = request("r1", RequestBody::Gc { keep: None });
    assert!(s.claim(&req, Ok(())).is_ok());
    let d = s.decide(&req.body, Observed::Nothing);
    let e = match d {
        Decision::Answer(Err(e)) => e,
        _ => panic!("not refused"),
    };
    assert_eq!(e.message, "server has no history limit configured; pass keep explicitly");
    let first = match s.finish("r1", Err(e), Ok(())) {
        Reply::Fresh(m) => error_of(&m),
        _ => panic!("stored"),
    };
    let again = match s.recall("r1") {
        Admission::Fresh(m) => error_of(&m),
        _ => panic!("carried out twice"),
    };
    assert_eq!(first, again);
    let r = s.store.status_for_request("r1");
    assert_eq!(r.status, RequestStatus::Error);
    assert!(r.error.is_some());
}

#[test]
fn what_could_not_be_written_is_not_reported_as_done() {
    let mut s = fresh();
    let req = request("r1", RequestBody::History { limit: None });
    let cause = ProtocolError::new(ErrorCode::IoError, "disk full");
    let m = s.claim(&req, Err(cause.clone())).unwrap_err();
    assert_eq!(error_of(&m), ("r1".to_string(), ErrorCode::IoError, "disk full".to_string()));
    assert!(matches!(s.recall("r1"), Admission::New));
    assert!(s.claim(&req, Ok(())).is_ok());
    let result = Ok(ResultBody::History { operations: vec![] });
    match s.finish("r1", result, Err(cause)) {
        Reply::Fresh(m) => assert_eq!(error_of(&m).2, "disk full"),
        _ => panic!("stored"),
    }
    assert_eq!(s.store.status_for_request("r1").status, RequestStatus::InProgress);
}

#[test]
fn request_status_tells_what_is_known() {
    let mut s = fresh();
    assert_eq!(s.store.status_for_request("r1").status, RequestStatus::Unknown);
    let req = request("r1", RequestBody::History { limit: None });
    s.claim(&req, Ok(())).unwrap();
    assert_eq!(s.store.status_for_request("r1").status, RequestStatus::InProgress);
    s.finish("r1", Ok(ResultBody::History { operations: vec![] }), Ok(()));
    let d = s.decide(
        &RequestBody::RequestStatus { target: "r1".to_string() },
        Observed::Nothing,
    );
    match d {
        Decision::Answer(Ok(ResultBody::RequestStatus(r))) => {
            assert_eq!(r.target, "r1");
            assert_eq!(r.status, RequestStatus::Done);
        }
        _ => panic!("wrong answer"),
    }
}

#[test]
fn a_write_goes_through_its_steps_and_can_be_undone() {
    let mut s = fresh();
    let body = RequestBody::Write {
        path: "f".to_string(),
        content: "new".to_string(),
        base_hash: None,
    };
    assert_eq!(s.need(&body), Need::File { path: "f".to_string() });
    let seen = Observed::File { is_dir: false, current: Ok(Some(b"old".to_vec())) };
    let planned = match s.decide(&body, seen) {
        Decision::Mutate(p) => p,
        _ => panic!("refused"),
    };
    assert_eq!(planned.path(), "f");
    let prepared = s.prepare("r1", planned, 5);
    assert_eq!(prepared.announcement().operation_id, "op-1");
    assert_eq!(prepared.announcement().after_hash, hash_bytes(b"new"));
    assert!(!s.store.is_announced("op-1"));
    let announced = s.announce(prepared, Ok(())).ok().unwrap();
    assert!(s.store.is_announced("op-1"));
    assert!(matches!(announced.effect(), Effect::Put(b) if b == b"new"));
    assert_eq!(announced.path(), "f");
    assert_eq!(s.store.next_unresolved(0), Some(0));
    assert!(s.store.find_record("op-1").is_none());
    let record = announced.commit_record(&Some(hash_bytes(b"old")), 6);
    match s.commit(record, &None, Ok(())) {
        Ok(ResultBody::WriteOrPatch(w)) => {
            assert_eq!(w.operation_id, "op-1");
            assert_eq!(w.old_hash, Some(hash_bytes(b"old")));
            assert_eq!(w.new_hash, hash_bytes(b"new"));
        }
        _ => panic!("wrong answer"),
    }
    assert_eq!(s.store.next_unresolved(0), None);
    assert!(!s.store.is_announced("op-1"));

    let body = RequestBody::Undo { operation_id: "op-1".to_string() };
    assert_eq!(
        s.need(&body),
        Need::Undone { path: "f".to_string(), operation_id: "op-1".to_string() }
    );
    let undone = s.undone_record(&body);
    let seen = Observed::Undone {
        current: Ok(Some(b"new".to_vec())),
        kept: Some(b"old".to_vec()),
    };
    let planned = match s.decide(&body, seen) {
        Decision::Mutate(p) => p,
        _ => panic!("refused"),
    };
    let prepared = s.prepare("r2", planned, 7);
    assert_eq!(prepared.announcement().operation_id, "op-2");
    let announced = s.announce(prepared, Ok(())).ok().unwrap();
    assert!(matches!(announced.effect(), Effect::Put(b) if b == b"old"));
    let record = announced.commit_record(&None, 8);
    match s.commit(record, &undone, Ok(())) {
        Ok(ResultBody::Undo(u)) => {
            assert_eq!(u.operation_id, "op-2");
            assert_eq!(u.restored_hash, Some(hash_bytes(b"old")));
            assert_eq!(u.new_hash, hash_bytes(b"old"));
        }
        _ => panic!("wrong answer"),
    }
}

#[test]
fn a_commit_that_could_not_be_written_is_refused() {
    let mut s = fresh();
    let body = RequestBody::Delete { path: "f".to_string() };
    let planned = |s: &mut Server| {
        let seen = Observed::File { is_dir: false, current: Ok(Some(b"a".to_vec())) };
        match s.decide(&body, seen) {
            Decision::Mutate(p) => p,
            _ => panic!("refused"),
        }
    };
    let full = || ProtocolError::new(ErrorCode::IoError, "disk full");
    let p = planned(&mut s);
    let prepared = s.prepare("r1", p, 1);
    assert_eq!(s.announce(prepared, Err(full())).err().unwrap().message, "disk full");
    assert!(!s.store.is_announced("op-1"));
    let p = planned(&mut s);
    let prepared = s.prepare("r1", p, 1);
    let announced = s.announce(prepared, Ok(())).ok().unwrap();
    assert!(matches!(announced.effect(), Effect::Remove));
    let record = announced.commit_record(&None, 2);
    assert_eq!(record.before_hash, Some(hash_bytes(b"a")));
    assert!(s.commit(record, &None, Err(full())).is_err());
    assert!(s.store.find_record("op-2").is_none());
    assert!(s.store.is_announced("op-2"));
}

#[test]
fn only_file_operations_can_be_undone() {
    let log = vec![exec_record(1), transfer_line(2), fs_record(3, "r3")];
    let mut s = server(OperationStore::load(vec![], log, 0), None);
    let undo = |s: &mut Server, id: &str| {
        let body = RequestBody::Undo { operation_id: id.to_string() };
        assert_eq!(s.need(&body), Need::Nothing);
        refusal(s.decide(&body, Observed::Nothing))
    };
    assert_eq!(
        undo(&mut s, "op-1"),
        (ErrorCode::InvalidRequest, "cannot undo an exec operation".to_string())
    );
    assert_eq!(
        undo(&mut s, "op-2"),
        (ErrorCode::InvalidRequest, "cannot undo a transfer operation".to_string())
    );
    assert_eq!(
        undo(&mut s, "op-9"),
        (ErrorCode::OperationNotFound, "operation not found: op-9".to_string())
    );
}

#[test]
fn operations_are_looked_up_by_id() {
    let log = vec![fs_record(1, "r1"), exec_record(2), transfer_line(4)];
    let mut s = server(OperationStore::load(vec![], log, 0), None);
    let body = RequestBody::OperationGet { operation_id: "op-4".to_string() };
    assert_eq!(
        refusal(s.decide(&body, Observed::Nothing)),
        (ErrorCode::OperationNotFound, "operation not found: op-4".to_string())
    );
    let body = RequestBody::OperationGet { operation_id: "op-2".to_string() };
    match s.decide(&body, Observed::Nothing) {
        Decision::Answer(Ok(ResultBody::Operation(d))) => assert_eq!(d.record, exec_record(2)),
        _ => panic!("wrong answer"),
    }
    let body = RequestBody::OperationGet { operation_id: "op-3".to_string() };
    assert_eq!(
        refusal(s.decide(&body, Observed::Nothing)),
        (ErrorCode::OperationNotFound, "operation not found: op-3".to_string())
    );
}

#[test]
fn history_is_bounded() {
    let log = (1..=120).map(|n| fs_record(n, "r")).collect();
    let mut s = server(OperationStore::load(vec![], log, 0), None);
    let mut ask = |limit| match s.decide(&RequestBody::History { limit }, Observed::Nothing) {
        Decision::Answer(Ok(ResultBody::History { operations })) => Ok(operations),
        d => Err(refusal(d)),
    };
    let fifty = ask(None).unwrap();
    assert_eq!(fifty.len(), 50);
    assert_eq!(fifty[0], fs_record(71, "r"));
    assert_eq!(fifty[49], fs_record(120, "r"));
    assert_eq!(ask(Some(100)).unwrap().len(), 100);
    assert_eq!(ask(Some(0)).unwrap().len(), 0);
    assert_eq!(
        ask(Some(101)).unwrap_err(),
        (ErrorCode::InvalidRequest, "history limit must be at most 100".to_string())
    );
}

#[test]
fn pruning_keeps_the_newest_and_never_reuses_ids() {
    let log = vec![fs_record(1, "a"), fs_record(2, "b"), fs_record(3, "c")];
    let entries = vec![done("a"), done("b"), open("x"), done("c"), done("loose")];
    let mut s = server(OperationStore::load(entries, log, 0), None);
    match s.decide(&RequestBody::Gc { keep: Some(1) }, Observed::Nothing) {
        Decision::Answer(Ok(ResultBody::Gc(g))) => {
            assert_eq!(g.removed_operations, 2);
            assert_eq!(g.removed_requests, 3);
            assert_eq!(g.retained_operations, 1);
        }
        _ => panic!("wrong answer"),
    }
    assert!(s.store.find_record("op-1").is_none());
    assert!(s.store.find_record("op-3").is_some());
    assert_eq!(s.store.status_for_request("a").status, RequestStatus::Unknown);
    assert_eq!(s.store.status_for_request("c").status, RequestStatus::Error);
    assert_eq!(s.store.status_for_request("x").status, RequestStatus::InProgress);
    assert_eq!(s.store.next_operation_id(), "op-4");
    let stats = s.store.prune(0);
    assert_eq!(stats.retained_operations, 0);
    assert_eq!(s.store.next_operation_id(), "op-5");
}

#[test]
fn startup_prunes_to_the_limit() {
    let ws = Workspace { root: "/w".to_string(), scratch_root: "/s".to_string() };
    let log = vec![fs_record(1, "a"), fs_record(2, "b")];
    let store = OperationStore::load(vec![], log, 9);
    let (mut s, stats) = Server::new(ws, store, ServerConfig::default(), Some(1));
    assert_eq!(stats.unwrap().removed_operations, 1);
    assert_eq!(s.store.next_operation_id(), "op-10");
    assert_eq!(history_limit_from(0), None);
    assert_eq!(history_limit_from(3), Some(3));
}

#[test]
fn loading_takes_the_newest_entry_of_each_request() {
    let entries = vec![open("a"), open("b"), done("a")];
    let s = OperationStore::load(entries, vec![], 0);
    assert_eq!(s.status_for_request("a").status, RequestStatus::Error);
    assert_eq!(s.status_for_request("b").status, RequestStatus::InProgress);
    let mut s = s;
    assert_eq!(s.clear_in_progress(), 1);
    assert_eq!(s.status_for_request("b").status, RequestStatus::Unknown);
    assert_eq!(s.status_for_request("a").status, RequestStatus::Error);
}

#[test]
fn ids_in_the_log_are_never_given_out_again() {
    let log = vec![fs_record(41, "a"), fs_record(7, "b")];
    let mut s = OperationStore::load(vec![], log, 12);
    assert!(s.has_ids());
    assert_eq!(s.newest_id(), 41);
    assert_eq!(s.next_operation_id(), "op-42");
}

fn prepared(kind: OperationKind, before: Option<&[u8]>, after: Option<&[u8]>) -> PreparedRecord {
    PreparedRecord {
        operation_id: "op-4".to_string(),
        request_id: "r4".to_string(),
        kind,
        path: "f".to_string(),
        before_hash: before.map(hash_bytes),
        after_hash: after.map(hash_bytes).unwrap_or("sha256:".to_string()),
        timestamp_ms: 1,
    }
}

#[test]
fn recovery_commits_what_took_effect() {
    let p = prepared(OperationKind::Write, Some(b"old"), Some(b"new"));
    let r = resolve(&p, &Some(b"new".to_vec()), 9);
    assert_eq!(r.action, RecoveryAction::Committed);
    assert!(matches!(r.record, AnyOperationRecord::Fs(f) if f.operation_id == "op-4" && f.timestamp_ms == 9));
    assert!(matches!(
        r.result,
        Some(StoredResult::Done(ServerMessage::Result { request_id, result: ResultBody::WriteOrPatch(_) })) if request_id == "r4"
    ));
    let p = prepared(OperationKind::Undo, Some(b"x"), None);
    let r = resolve(&p, &None, 9);
    match r.result {
        Some(StoredResult::Done(ServerMessage::Result { result: ResultBody::Undo(u), .. })) => {
            assert_eq!(u.restored_hash, None);
            assert_eq!(u.new_hash, "sha256:");
        }
        _ => panic!("wrong result"),
    }
}

#[test]
fn recovery_aborts_what_did_not_and_reports_conflicts() {
    let p = prepared(OperationKind::Write, None, Some(b"new"));
    let r = resolve(&p, &None, 9);
    assert_eq!(r.action, RecoveryAction::Aborted);
    assert!(matches!(r.record, AnyOperationRecord::Aborted(_)));
    assert!(r.result.is_none());
    let r = resolve(&p, &Some(b"other".to_vec()), 9);
    assert_eq!(r.action, RecoveryAction::Conflict);
    assert!(matches!(r.record, AnyOperationRecord::Aborted(_)));
    assert!(matches!(
        r.result,
        Some(StoredResult::Error(e)) if e.message.ends_with("after operation op-4")
    ));
}

fn working_dir() -> Observed {
    Observed::WorkingDir(Ok(WorkingDir {
        shown: "/w".to_string(),
        inside: true,
        is_dir: true,
    }))
}

fn exec_body(argv: &[&str]) -> RequestBody {
    RequestBody::Exec {
        argv: argv.iter().map(|s| s.to_string()).collect(),
        cwd: Some("sub".to_string()),
        profile: None,
        timeout_ms: Some(20),
    }
}

fn exec_request() -> ExecRequest {
    ExecRequest {
        argv: vec!["ls".to_string()],
        cwd: None,
        profile: None,
        timeout_ms: Some(20),
    }
}

#[test]
fn exec_takes_an_id_whether_it_runs_or_not() {
    let mut s = fresh();
    let body = exec_body(&["ls"]);
    assert_eq!(s.need(&body), Need::WorkingDir { path: Some("sub".to_string()) });
    match s.decide(&body, working_dir()) {
        Decision::Run { operation_id, plan } => {
            assert_eq!(operation_id, "op-1");
            assert_eq!(plan.command, ["ls"]);
            assert_eq!(plan.timeout_ms, Some(20));
        }
        _ => panic!("refused"),
    }
    match s.decide(&exec_body(&[]), working_dir()) {
        Decision::Reject { operation_id, error } => {
            assert_eq!(operation_id, "op-2");
            assert_eq!(error.message, "argv must not be empty");
        }
        _ => panic!("not refused"),
    }
}

fn outcome(timed_out: bool) -> ExecOutcome {
    ExecOutcome {
        exit_code: if timed_out { -1 } else { 5 },
        operation_id: "op-1".to_string(),
        stdout: vec![],
        stderr: vec![],
        duration_ms: 12,
        timed_out,
        output_truncated: timed_out,
    }
}

#[test]
fn exec_records_tell_how_it_ended() {
    let r = run_record("r1", exec_request(), &outcome(false), 99);
    assert_eq!(r.disposition, ExecDisposition::Completed);
    assert_eq!(r.exit_code, Some(5));
    assert_eq!((r.error, r.error_code, r.output_truncated), (None, None, None));
    let r = run_record("r1", exec_request(), &outcome(true), 99);
    assert_eq!(r.disposition, ExecDisposition::TimedOut);
    assert_eq!(r.error.as_deref(), Some("killed after Some(20) ms timeout"));
    assert_eq!(r.error_code, Some(ErrorCode::ExecFailed));
    assert_eq!(r.output_truncated, Some(true));
    let e = ProtocolError::new(ErrorCode::NotFound, "cwd not found: /x");
    let r = rejection_record("op-3", "r3", exec_request(), &e, 7);
    assert_eq!(r.disposition, ExecDisposition::Rejected);
    assert_eq!(r.operation_id, "op-3");
    assert_eq!(r.error.as_deref(), Some("cwd not found: /x"));
    assert_eq!(r.exit_code, None);
}

#[test]
fn exec_answers_carry_the_previews() {
    match exec_answer(outcome(false), ExecOutput::default(), ExecOutput::default()) {
        ResultBody::Exec(r) => {
            assert_eq!(r.operation_id, "op-1");
            assert_eq!(r.termination, ExecTermination::Exited { code: 5 });
            assert_eq!(r.duration_ms, 12);
            assert_eq!(r.stdout, ExecOutput::default());
        }
        _ => panic!("wrong body"),
    }
}

#[test]
fn a_rejected_exec_reports_the_failure_to_log_first() {
    let mut s = fresh();
    let req = request("r1", exec_body(&[]));
    s.claim(&req, Ok(())).unwrap();
    let e = ProtocolError::new(ErrorCode::InvalidRequest, "argv must not be empty");
    let log = ProtocolError::new(ErrorCode::IoError, "log");
    let table = ProtocolError::new(ErrorCode::IoError, "table");
    let m = s.finish_rejected("r1", e.clone(), Err(log.clone()), Err(table));
    assert_eq!(error_of(&m).2, "table");
    assert_eq!(s.store.status_for_request("r1").status, RequestStatus::InProgress);
    let m = s.finish_rejected("r1", e.clone(), Err(log.clone()), Ok(()));
    assert_eq!(error_of(&m).2, "log");
    assert_eq!(s.store.status_for_request("r1").error.unwrap().message, "argv must not be empty");
    let m = s.finish_rejected("r1", e, Ok(()), Ok(()));
    assert_eq!(error_of(&m).2, "argv must not be empty");
    let m = s.finish_unrecorded("r1", log, Ok(()));
    assert_eq!(error_of(&m).2, "log");
    assert_eq!(s.store.status_for_request("r1").error.unwrap().message, "log");
}

#[test]
fn reads_are_decided_on_what_was_seen() {
    let mut s = fresh();
    let body = RequestBody::Read { path: "f".to_string(), offset: None, limit: None };
    assert_eq!(s.need(&body), Need::Content { path: "f".to_string() });
    let seen = Observed::Content(Ok(Lookup::Found(Content::Bytes(b"hi".to_vec()))));
    match s.decide(&body, seen) {
        Decision::Answer(Ok(ResultBody::Read(r))) => assert_eq!(r.content, "hi"),
        _ => panic!("wrong answer"),
    }
    let body = RequestBody::Delete { path: "d".to_string() };
    let seen = Observed::File { is_dir: true, current: Ok(None) };
    assert_eq!(
        refusal(s.decide(&body, seen)),
        (ErrorCode::IsADirectory, "not a file: d".to_string())
    );
}

#[test]
fn requests_are_named_and_lines_are_trimmed() {
    assert_eq!(op_kind_str(&RequestBody::Gc { keep: None }), "gc");
    assert_eq!(
        op_kind_str(&RequestBody::OperationGet { operation_id: String::new() }),
        "operation_get"
    );
    assert_eq!(message_line(" \t\n"), None);
    assert_eq!(message_line("  {\"a\": 1}\r\n").as_deref(), Some("{\"a\": 1}"));
    assert_eq!(message_line("\u{2003}x y\u{a0}").as_deref(), Some("x y"));
    let m = parse_failed("expected value");
    assert_eq!(
        error_of(&m),
        (
            "(parse-error)".to_string(),
            ErrorCode::InvalidRequest,
            "invalid request line: expected value".to_string()
        )
    );
}

#[test]
fn error_codes_have_names() {
    assert_eq!(ErrorCode::StaleFile.name(), "STALE_FILE");
    assert_eq!(ErrorCode::OperationNotFound.name(), "OPERATION_NOT_FOUND");
    assert_eq!(
        ProtocolError::new(ErrorCode::NotFound, "not found: x").show(),
        "NotFound: not found: x"
    );
}

#[test]
fn the_tables_can_be_walked_and_announcements_found() {
    let p = prepared(OperationKind::Write, None, Some(b"new"));
    let log = vec![fs_record(1, "a"), AnyOperationRecord::Prepared(p)];
    let mut s = OperationStore::load(vec![done("a"), open("r4")], log, 0);
    assert_eq!(s.request_count(), 2);
    assert_eq!(s.request_at(1).request_id, "r4");
    assert_eq!(s.log_len(), 2);
    assert_eq!(s.log_line(0).operation_id(), "op-1");
    assert!(s.prepared_at(0).is_none());
    assert_eq!(s.next_unresolved(0), Some(1));
    let p = s.prepared_at(1).unwrap().clone();
    let r = resolve(&p, &Some(b"new".to_vec()), 9);
    assert!(s.append(r.record, Ok(())).is_ok());
    assert_eq!(s.next_unresolved(0), None);
    assert_eq!(s.clear_in_progress(), 1);
    assert_eq!(s.status_for_request("r4").status, RequestStatus::Unknown);
    assert_eq!(s.status_for_request("a").status, RequestStatus::Error);
}

#[test]
fn recovery_goes_by_the_hash_of_the_file() {
    let mut p = prepared(OperationKind::Write, None, Some(b"new"));
    p.after_hash = "sha256:bb".to_string();
    assert_eq!(action_for(&p, &Some("sha256:bb".to_string())), RecoveryAction::Committed);
    assert_eq!(action_for(&p, &None), RecoveryAction::Aborted);
    assert_eq!(action_for(&p, &Some("sha256:cc".to_string())), RecoveryAction::Conflict);
    p.after_hash = "sha256:".to_string();
    p.before_hash = Some("sha256:aa".to_string());
    assert_eq!(action_for(&p, &None), RecoveryAction::Committed);
    assert_eq!(action_for(&p, &Some("sha256:aa".to_string())), RecoveryAction::Aborted);
}

#[test]
fn a_finished_command_is_answered_by_a_terminal_message() {
    let mut s = fresh();
    let req = request("r1", exec_body(&["x"]));
    s.claim(&req, Ok(())).unwrap();
    let body = exec_answer(outcome(false), ExecOutput::default(), ExecOutput::default());
    match s.finish("r1", Ok(body), Ok(())) {
        Reply::Stored(i) => {
            let m = s.stored_answer(i).unwrap();
            assert!(m.is_terminal());
            assert_eq!(m.request_id(), "r1");
        }
        Reply::Fresh(_) => panic!("wrong reply"),
    }
}

#[test]
fn loading_invents_no_operation_numbers() {
    assert_eq!(OperationStore::load(vec![], vec![], 7).newest_id(), 7);
    assert_eq!(OperationStore::load(vec![], vec![fs_record(9, "a")], 7).newest_id(), 9);
    assert_eq!(OperationStore::load(vec![], vec![fs_record(3, "a")], 7).newest_id(), 7);
}
