use agent_remote::cli::{
    check_argv, exec_footer, list_line, server_argv, shown_output, Target,
};
use agent_remote::client::{
    exec_step, exit_code_of, gc_reply, history_reply, list_reply, local_server_argv,
    mutation_reply, operation_get_reply, read_reply, request_status_reply, shell_quote,
    ssh_server_argv, stat_reply, transfer_reply, undo_reply, unpack, upload_abort_reply,
    upload_prepare_reply, Client, ClientError, Endpoint, ExecStep, ExecStream, Route,
};
use agent_remote::error::{ErrorCode, ProtocolError};
use agent_remote::ids::{hex_u64, request_id, transfer_id};
use agent_remote::inputs::{ListDirInput, RunCommandInput};
use agent_remote::mcp::{
    check_line, check_workspace, downloaded, overwrites, parse_fleet, show_delete, show_history,
    show_list, show_patch, show_read, show_undo, show_write, Attempt, Connecting, FleetFile,
    RemoteWorkspaceServer, Tried, WorkspaceEntry,
};
use agent_remote::messages::{
    ExecEvent, ExecEventKind, ExecOutput, ExecResult, ExecTermination, FileEntry, GcResult,
    ListEntry, ListKind, ListResult, ReadResult, RequestBody, RequestStatus, RequestStatusResult,
    ResultBody, ServerMessage, TransferResult, UndoResult, UploadPrepareResult,
    WriteOrPatchResult,
};
use agent_remote::record::TransferDirection;

#[test]
fn quotes_empty_spaces_and_metacharacters() {
    assert_eq!(shell_quote(""), "''");
    assert_eq!(shell_quote("plain"), "'plain'");
    assert_eq!(shell_quote("a b"), "'a b'");
    assert_eq!(shell_quote("$(rm -rf /);`x`|&"), "'$(rm -rf /);`x`|&'");
    assert_eq!(shell_quote("it's"), r#"'it'\''s'"#);
}

#[test]
fn ssh_argv_is_one_quoted_remote_command() {
    let argv = ssh_server_argv(
        "host",
        "agent-remote-server",
        "/data/my project",
        None,
        Some("/tmp/st ate"),
        None,
    );
    assert_eq!(argv[0], "ssh");
    assert_eq!(argv[1], "host");
    assert_eq!(
        argv[2],
        "'agent-remote-server' --root '/data/my project' --log-dir '/tmp/st ate'"
    );
    assert_eq!(argv.len(), 3);
}

#[test]
fn ssh_argv_forwards_state_base() {
    let argv = ssh_server_argv(
        "host",
        "srv",
        "/r",
        None,
        None,
        Some("/data/sicheng/agent state"),
    );
    assert_eq!(
        argv[2],
        "'srv' --root '/r' --state-base '/data/sicheng/agent state'"
    );
}

#[test]
fn local_servers_are_started_without_a_shell() {
    let argv = local_server_argv("srv", "/my r", Some("c"), None, Some("b"));
    assert_eq!(argv, ["srv", "--root", "/my r", "--config", "c", "--state-base", "b"]);
    let argv = ssh_server_argv("h", "srv", "/r", Some("c c"), Some("l"), None);
    assert_eq!(argv[2], "'srv' --root '/r' --config 'c c' --log-dir 'l'");
}

fn target(local: bool, host: Option<&str>) -> Target {
    Target {
        local,
        host: host.map(|h| h.to_string()),
        remote_bin: "srv".to_string(),
        root: "/r".to_string(),
        config: None,
        log_dir: None,
        state_base: Some("b".to_string()),
    }
}

#[test]
fn the_command_line_chooses_the_server() {
    let argv = server_argv(&target(true, Some("h"))).unwrap();
    assert_eq!(argv, ["srv", "--root", "/r", "--state-base", "b"]);
    let argv = server_argv(&target(false, Some("h"))).unwrap();
    assert_eq!(argv, ["ssh", "h", "'srv' --root '/r' --state-base 'b'"]);
    assert_eq!(
        server_argv(&target(false, None)).unwrap_err(),
        "--host is required (or use --local to run the server locally)"
    );
}

fn entry(name: &str, kind: ListKind, size: Option<u64>) -> ListEntry {
    ListEntry { name: name.to_string(), kind, size }
}

#[test]
fn listed_entries_are_aligned() {
    assert_eq!(list_line(&entry("a", ListKind::File, Some(12))), "f         12 a");
    assert_eq!(list_line(&entry("d", ListKind::Dir, None)), "d          - d");
    assert_eq!(
        list_line(&entry("x", ListKind::Symlink, Some(12345678901))),
        "l 12345678901 x"
    );
    assert_eq!(exec_footer(-1, "op-2"), "[exit -1] operation_id=op-2");
    assert_eq!(exec_footer(i32::MIN, "o"), "[exit -2147483648] operation_id=o");
    assert_eq!(exec_footer(7, "o"), "[exit 7] operation_id=o");
    assert!(check_argv(&vec!["x".to_string()]).is_ok());
    assert_eq!(check_argv(&vec![]).unwrap_err(), "exec requires at least one argv element");
}

fn event(id: &str, event: ExecEventKind) -> ServerMessage {
    ServerMessage::ExecEvent(ExecEvent { request_id: id.to_string(), event })
}

fn stdout(id: &str, data: &str) -> ServerMessage {
    event(id, ExecEventKind::Stdout { data: data.to_string() })
}

fn result(id: &str, result: ResultBody) -> ServerMessage {
    ServerMessage::Result { request_id: id.to_string(), result }
}

fn failure(id: &str) -> ServerMessage {
    ServerMessage::Error {
        request_id: id.to_string(),
        error: ProtocolError::new(ErrorCode::NotFound, "not found: x"),
    }
}

fn gc() -> ResultBody {
    ResultBody::Gc(GcResult {
        removed_operations: 1,
        removed_requests: 2,
        retained_operations: 3,
    })
}

#[test]
fn replies_reach_their_request_once() {
    let mut c = Client::new();
    assert!(c.expect_reply("r1").is_ok());
    assert!(c.expect_reply("r2").is_ok());
    assert_eq!(c.route(&result("r1", gc())), Route::Reply);
    assert_eq!(c.route(&result("r1", gc())), Route::Unhandled);
    assert_eq!(c.route(&failure("r2")), Route::Reply);
    assert_eq!(c.route(&failure("r9")), Route::Unhandled);
}

#[test]
fn streams_stay_until_their_terminal_message() {
    let mut c = Client::new();
    assert!(c.expect_stream("r1").is_ok());
    assert_eq!(c.route(&stdout("r1", "a")), Route::Stream { last: false });
    assert_eq!(c.route(&stdout("r1", "b")), Route::Stream { last: false });
    assert_eq!(c.route(&failure("r1")), Route::Stream { last: true });
    assert_eq!(c.route(&stdout("r1", "c")), Route::Unhandled);
}

#[test]
fn a_closed_connection_stays_closed() {
    let mut c = Client::new();
    c.expect_reply("r1").unwrap();
    c.expect_stream("r2").unwrap();
    c.close();
    assert!(c.is_closed());
    assert_eq!(c.route(&result("r1", gc())), Route::Unhandled);
    assert_eq!(c.route(&stdout("r2", "x")), Route::Unhandled);
    assert!(matches!(c.expect_reply("r3"), Err(ClientError::Closed)));
    assert!(matches!(c.expect_stream("r3"), Err(ClientError::Closed)));
}

#[test]
fn a_request_that_timed_out_waits_no_longer() {
    let mut c = Client::new();
    c.expect_reply("r1").unwrap();
    c.give_up("r1");
    assert_eq!(c.route(&result("r1", gc())), Route::Unhandled);
}

#[test]
fn replies_are_unpacked() {
    assert!(unpack(result("r", gc())).is_ok());
    assert_eq!(
        unpack(failure("r")).unwrap_err().show(),
        "protocol error from server: NotFound: not found: x"
    );
    assert!(unpack(stdout("r", "x"))
        .unwrap_err()
        .show()
        .ends_with("unexpected exec event on reply channel"));
    assert_eq!(gc_reply(result("r", gc())).ok().unwrap().removed_requests, 2);
    assert!(list_reply(result("r", gc()))
        .err()
        .unwrap()
        .show()
        .ends_with("unexpected result body for list"));
    assert!(read_reply(result("r", gc()))
        .err()
        .unwrap()
        .show()
        .ends_with("unexpected result body for read"));
    assert!(mutation_reply("patch", result("r", gc()))
        .err()
        .unwrap()
        .show()
        .ends_with("unexpected result body for patch"));
}

#[test]
fn client_errors_are_shown() {
    assert_eq!(ClientError::Closed.show(), "server closed connection");
    assert_eq!(ClientError::Timeout.show(), "request timed out");
    assert_eq!(ClientError::Io("x".to_string()).show(), "transport io error: x");
    assert_eq!(ClientError::Serde("y".to_string()).show(), "serde error: y");
}

fn exec_result(termination: ExecTermination) -> ExecResult {
    ExecResult {
        operation_id: "op-43".to_string(),
        termination,
        duration_ms: 12,
        stdout: ExecOutput::default(),
        stderr: ExecOutput::default(),
    }
}

#[test]
fn exec_streams_are_followed_to_their_end() {
    assert!(matches!(exec_step(Some(stdout("r", "x"))), ExecStep::Event(ExecEventKind::Stdout { .. })));
    let done = result("r", ResultBody::Exec(exec_result(ExecTermination::Exited { code: 4 })));
    match exec_step(Some(done)) {
        ExecStep::Done(Ok(r)) => assert_eq!(exit_code_of(&r), 4),
        _ => panic!("not done"),
    }
    assert_eq!(exit_code_of(&exec_result(ExecTermination::TimedOut)), -1);
    assert!(matches!(exec_step(None), ExecStep::Done(Err(ClientError::Closed))));
    assert!(matches!(exec_step(Some(result("r", gc()))), ExecStep::Done(Err(ClientError::Closed))));
    assert!(matches!(exec_step(Some(failure("r"))), ExecStep::Done(Err(ClientError::Server(_)))));
}

#[test]
fn streams_are_collected_up_to_the_terminal_message() {
    let events = vec![
        stdout("r", "a"),
        event("r", ExecEventKind::Stderr { data: "e".to_string() }),
        stdout("r", "b"),
        event("r", ExecEventKind::Exit { exit_code: 3, operation_id: "op-1".to_string() }),
        failure("r"),
        stdout("r", "late"),
    ];
    let (out, err, exit, op) = ExecStream { events }.collect();
    assert_eq!((out.as_str(), err.as_str(), exit, op.as_deref()), ("ab", "e", Some(3), Some("op-1")));
    let (out, _, exit, op) = ExecStream { events: vec![] }.collect();
    assert_eq!((out.as_str(), exit, op), ("", None, None));
}

#[test]
fn ids_are_padded_hex() {
    assert_eq!(hex_u64(0, 4), "0000");
    assert_eq!(hex_u64(0xabc, 2), "abc");
    assert_eq!(transfer_id(255, 16), "xfer-00000000000000ff-0010");
    assert_eq!(request_id(1, 2, 3), "req-0000000000000001-00000002-00000003");
    assert_ne!(request_id(1, 2, 3), request_id(1, 3, 2));
    assert_eq!(hex_u64(u64::MAX, 16), format!("{:016x}", u64::MAX));
}

fn workspace_entry(host: Option<&str>, root: &str) -> WorkspaceEntry {
    WorkspaceEntry {
        host: host.map(|h| h.to_string()),
        root: root.to_string(),
        bin: None,
        config: None,
        state_base: None,
        label: Some("l".to_string()),
    }
}

fn fleet(entries: Vec<(&str, WorkspaceEntry)>) -> Result<FleetFile, String> {
    Ok(FleetFile {
        workspaces: entries.into_iter().map(|(n, e)| (n.to_string(), e)).collect(),
    })
}

#[test]
fn fleets_are_checked() {
    assert_eq!(parse_fleet(Err("bad".to_string())).unwrap_err(), "bad");
    assert_eq!(parse_fleet(fleet(vec![])).unwrap_err(), "fleet config declares no workspaces");
    let clash = fleet(vec![
        ("a", workspace_entry(Some("h"), "/r")),
        ("b", workspace_entry(None, "/r")),
        ("c", workspace_entry(Some("h"), "/r")),
    ]);
    assert_eq!(
        parse_fleet(clash).unwrap_err(),
        "workspaces 'a' and 'c' address the same host and root; they would contend for the same server state lock"
    );
    let ok = parse_fleet(fleet(vec![
        ("a", workspace_entry(Some("h"), "/r")),
        ("b", workspace_entry(None, "/r")),
    ]))
    .unwrap();
    assert_eq!(ok[0].1.endpoint.host(), "h");
    assert_eq!(ok[0].1.label.as_deref(), Some("l"));
    assert_eq!(
        ok[1].1.endpoint,
        Endpoint::Local {
            server_bin: "agent-remote-server".to_string(),
            root: "/r".to_string(),
            state_base: None,
            config: None,
        }
    );
    assert_eq!(ok[1].1.endpoint.control_argv(), ["agent-remote-server", "--root", "/r"]);
    assert_eq!(
        ok[0].1.endpoint.control_argv(),
        ["ssh", "h", "'agent-remote-server' --root '/r'"]
    );
    assert_eq!(check_line("a", &ok[0].1.endpoint, &Ok(())), "a [h:/r]: ok");
    assert_eq!(
        check_line("b", &ok[1].1.endpoint, &Err("x".to_string())),
        "b [(local):/r]: x"
    );
}

#[test]
fn workspaces_are_found_by_name_alone() {
    let fleet = parse_fleet(fleet(vec![
        ("a", workspace_entry(Some("h"), "/r")),
        ("b", workspace_entry(None, "/r")),
    ]))
    .unwrap();
    let s = RemoteWorkspaceServer::new(fleet);
    assert_eq!(s.len(), 2);
    assert_eq!(s.handle("b"), Ok(1));
    assert_eq!(s.at(1).0, "b");
    assert_eq!(
        s.handle("c").unwrap_err(),
        "unknown_workspace: 'c' is not a configured workspace; available workspaces: a, b"
    );
}

#[test]
fn connecting_is_tried_with_pauses_and_given_up() {
    let mut c = Connecting::new();
    assert!(matches!(c.next("w"), Attempt::Connect { wait: false }));
    c.failed(Tried::ConnectFailed("refused".to_string()));
    for _ in 0..3 {
        assert!(matches!(c.next("w"), Attempt::Connect { wait: true }));
        c.failed(Tried::ProbeFailed("locked".to_string()));
    }
    match c.next("w") {
        Attempt::GiveUp(m) => assert_eq!(
            m,
            "probe_failed: cannot reach workspace 'w' after 4 attempts (attempt 4: locked)"
        ),
        _ => panic!("goes on"),
    }
    assert!(check_workspace(Ok(())).is_ok());
    assert_eq!(
        check_workspace(Err(Tried::ConnectFailed("x".to_string()))).unwrap_err(),
        "connect_failed: x"
    );
    assert_eq!(
        check_workspace(Err(Tried::ProbeFailed("y".to_string()))).unwrap_err(),
        "probe_failed: y"
    );
}

#[test]
fn tools_say_what_happened() {
    let w = WriteOrPatchResult {
        operation_id: "op-1".to_string(),
        old_hash: None,
        new_hash: "sha256:n".to_string(),
    };
    assert_eq!(
        show_write("f", "ws", &w),
        "Wrote f in workspace 'ws'. operation_id=op-1, new_hash=sha256:n"
    );
    assert_eq!(
        show_patch("f", "ws", &w),
        "Patched f in workspace 'ws'. operation_id=op-1, new_hash=sha256:n"
    );
    assert_eq!(show_delete("f", "ws", &w), "Deleted f in workspace 'ws'. operation_id=op-1");
    let u = UndoResult {
        operation_id: "op-2".to_string(),
        restored_hash: None,
        new_hash: "sha256:o".to_string(),
    };
    assert_eq!(
        show_undo("op-1", "ws", &u),
        "Undid target op-1 in workspace 'ws'; undo_operation_id=op-2, new_hash=sha256:o"
    );
    assert_eq!(show_history("ws", &vec![]), "(no operations recorded in workspace 'ws')");
    assert_eq!(show_history("ws", &vec!["a".to_string(), "b".to_string()]), "a\nb");
}

#[test]
fn pages_are_shown_with_their_next_offset() {
    let r = ReadResult {
        content: "text".to_string(),
        hash: Some("sha256:h".to_string()),
        truncated: true,
        next_offset: Some(4),
    };
    assert_eq!(
        show_read(r),
        "text\n\n[output truncated; use offset=4 to read more]\n\n[hash: sha256:h]"
    );
    let r = ListResult {
        entries: vec![
            entry("d", ListKind::Dir, Some(1)),
            entry("f", ListKind::File, Some(2)),
            entry("g", ListKind::File, None),
            entry("l", ListKind::Symlink, None),
        ],
        next_offset: Some(4),
    };
    assert_eq!(show_list(&r), "  d/\n  f (2 bytes)\n  g\n  l ->\n[more entries: use offset=4]");
    let r = ListResult { entries: vec![], next_offset: None };
    assert_eq!(show_list(&r), "(empty directory)");
}

#[test]
fn downloads_are_told_with_their_local_path() {
    let r = TransferResult {
        operation_id: "op-1".to_string(),
        direction: TransferDirection::Download,
        path: "remote".to_string(),
        size: 1,
        sha256: "sha256:x".to_string(),
        duration_ms: 2,
    };
    let r = downloaded(r, "local".to_string());
    assert_eq!(r.path, "local");
    assert_eq!(r.size, 1);
    assert!(!overwrites(None));
    assert!(overwrites(Some(true)));
}

#[test]
fn inputs_stand_for_requests() {
    let i = ListDirInput {
        workspace: "w".to_string(),
        path: "p".to_string(),
        offset: Some(1),
        limit: None,
    };
    assert!(matches!(
        i.into_request(),
        RequestBody::List { path, offset: Some(1), limit: None } if path == "p"
    ));
    let i = RunCommandInput {
        workspace: "w".to_string(),
        argv: vec!["x".to_string()],
        cwd: None,
        profile: Some("p".to_string()),
        timeout_ms: Some(3),
    };
    assert!(matches!(i.into_request(), Ok(RequestBody::Exec { timeout_ms: Some(3), .. })));
}

#[test]
fn the_tool_gives_commands_a_default_and_a_maximum_time() {
    let input = |timeout_ms| RunCommandInput {
        workspace: "w".to_string(),
        argv: vec!["x".to_string()],
        cwd: None,
        profile: None,
        timeout_ms,
    };
    let time = |timeout_ms| match input(timeout_ms).into_request() {
        Ok(RequestBody::Exec { timeout_ms, .. }) => timeout_ms,
        _ => panic!("wrong request"),
    };
    assert_eq!(time(None), Some(300000));
    assert_eq!(time(Some(3600000)), Some(3600000));
    assert_eq!(
        input(Some(3600001)).into_request().err().unwrap(),
        "timeout_ms must be at most 3600000"
    );
}

#[test]
fn output_is_printed_with_a_note_of_what_was_left_out() {
    let mut o = ExecOutput {
        prefix: "a".to_string(),
        suffix: "b".to_string(),
        total_bytes: 2,
        omitted_bytes: 0,
    };
    assert_eq!(shown_output(&o), "ab");
    o.omitted_bytes = 12;
    assert_eq!(shown_output(&o), "a\n[12 bytes omitted]\nb");
}

#[test]
fn each_reply_is_unpacked_to_its_own_result() {
    let stat = FileEntry {
        path: "f".to_string(),
        kind: ListKind::File,
        size: 7,
        hash: None,
        mode: None,
    };
    let r = stat_reply(result("r", ResultBody::Stat { stat }));
    assert_eq!(r.ok().unwrap().size, 7);
    let undo = UndoResult {
        operation_id: "op-2".to_string(),
        restored_hash: None,
        new_hash: "sha256:".to_string(),
    };
    let r = undo_reply(result("r", ResultBody::Undo(undo)));
    assert_eq!(r.ok().unwrap().operation_id, "op-2");
    let r = history_reply(result("r", ResultBody::History { operations: vec![] }));
    assert!(r.ok().unwrap().is_empty());
    let status = RequestStatusResult {
        target: "q".to_string(),
        status: RequestStatus::Done,
        error: None,
    };
    let r = request_status_reply(result("r", ResultBody::RequestStatus(status)));
    assert_eq!(r.ok().unwrap().target, "q");
    let prepared = UploadPrepareResult {
        transfer_id: "t".to_string(),
        staging_path: "/w/.f.x.part".to_string(),
    };
    let r = upload_prepare_reply(result("r", ResultBody::UploadPrepare(prepared)));
    assert_eq!(r.ok().unwrap().staging_path, "/w/.f.x.part");
    let r = upload_abort_reply(result("r", ResultBody::UploadAbort { transfer_id: "t".to_string() }));
    assert_eq!(r.ok().unwrap(), "t");
    let errors = [
        stat_reply(result("r", gc())).err().unwrap().show(),
        undo_reply(result("r", gc())).err().unwrap().show(),
        history_reply(result("r", gc())).err().unwrap().show(),
        operation_get_reply(result("r", gc())).err().unwrap().show(),
        request_status_reply(result("r", gc())).err().unwrap().show(),
        upload_prepare_reply(result("r", gc())).err().unwrap().show(),
        upload_abort_reply(result("r", gc())).err().unwrap().show(),
        transfer_reply("upload_commit", result("r", gc())).err().unwrap().show(),
    ];
    let names = [
        "stat",
        "undo",
        "history",
        "operation_get",
        "request_status",
        "upload_prepare",
        "upload_abort",
        "upload_commit",
    ];
    for (e, name) in errors.iter().zip(names) {
        assert!(e.ends_with(&format!("unexpected result body for {name}")), "{e}");
    }
    assert_eq!(
        stat_reply(failure("r")).err().unwrap().show(),
        "protocol error from server: NotFound: not found: x"
    );
}

#[test]
fn transfer_processes_are_started_beside_the_server() {
    let local = Endpoint::Local {
        server_bin: "srv".to_string(),
        root: "/r".to_string(),
        state_base: Some("/b".to_string()),
        config: None,
    };
    assert_eq!(
        local.receive_argv("/r/.f.part", 12),
        ["srv", "--transfer-receive", "/r/.f.part", "--expect-size", "12"]
    );
    assert_eq!(
        local.send_argv("a b"),
        ["srv", "--transfer-send", "a b", "--root", "/r", "--state-base", "/b"]
    );
    let ssh = Endpoint::Ssh {
        host: "h".to_string(),
        remote_bin: "srv".to_string(),
        root: "/r".to_string(),
        state_base: None,
        config: None,
    };
    assert_eq!(
        ssh.send_argv("a b"),
        ["ssh", "h", "'srv' '--transfer-send' 'a b' '--root' '/r'"]
    );
    assert_eq!(
        ssh.receive_argv("/r/.f.part", 0),
        ["ssh", "h", "'srv' '--transfer-receive' '/r/.f.part' '--expect-size' '0'"]
    );
}

#[test]
fn fleets_stand_in_the_order_of_their_names() {
    let order = |names: &[&str]| {
        let entries = names.iter().map(|n| (*n, workspace_entry(None, n))).collect();
        fleet(entries).unwrap().in_order()
    };
    assert!(order(&[]));
    assert!(order(&["a"]));
    assert!(order(&["B", "a", "ab", "é"]));
    assert!(!order(&["a", "a"]));
    assert!(!order(&["b", "a"]));
    assert!(!order(&["a", "c", "b"]));
}
