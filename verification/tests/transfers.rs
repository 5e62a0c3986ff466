use agent_remote::config::ServerConfig;
use agent_remote::error::{ErrorCode, ProtocolError};
use agent_remote::hash::hash_bytes;
use agent_remote::messages::{RequestBody, ResultBody};
use agent_remote::record::TransferDirection;
use agent_remote::server::{Decision, Need, Observed, Server};
use agent_remote::store::OperationStore;
use agent_remote::transfer::{
    abort_result, download_record, finish_transfer, upload_abort, upload_commit, upload_prepare,
    upload_record, Install, Installed, ParentSeen, PendingUpload, Receiving, Sending, StagingSeen,
    TargetSeen, UploadPlace, UploadRegistry,
};
use agent_remote::workspace::Workspace;

fn place(parent: ParentSeen, target: TargetSeen) -> Result<UploadPlace, ProtocolError> {
    Ok(UploadPlace { parent, target, file_name: Some("f.bin".to_string()) })
}

fn pending(overwrite: bool) -> PendingUpload {
    PendingUpload {
        staging: "/w/.f.bin.abc.part".to_string(),
        target: "/w/f.bin".to_string(),
        logical_path: "f.bin".to_string(),
        overwrite,
    }
}

#[test]
fn uploads_are_staged_beside_their_target() {
    let n = upload_prepare("f.bin", place(ParentSeen::Directory, TargetSeen::Missing), false)
        .ok()
        .unwrap();
    assert_eq!((n.prefix.as_str(), n.suffix.as_str()), (".f.bin.", ".part"));
    assert!(upload_prepare("f.bin", place(ParentSeen::Directory, TargetSeen::File), true).is_ok());
}

#[test]
fn uploads_are_refused_for_a_reason() {
    let told = |p, overwrite| {
        let e = upload_prepare("f.bin", p, overwrite).err().unwrap();
        (e.code, e.message)
    };
    assert_eq!(
        told(place(ParentSeen::NoParent, TargetSeen::Missing), false),
        (ErrorCode::InvalidRequest, "path has no parent".to_string())
    );
    assert_eq!(
        told(place(ParentSeen::Other, TargetSeen::Missing), false),
        (ErrorCode::NotADirectory, "parent of f.bin is not a directory".to_string())
    );
    assert_eq!(
        told(place(ParentSeen::Missing, TargetSeen::Missing), false),
        (
            ErrorCode::NotFound,
            "parent directory of f.bin does not exist; create it first".to_string()
        )
    );
    assert_eq!(
        told(place(ParentSeen::Failed("x".to_string()), TargetSeen::Missing), false),
        (ErrorCode::IoError, "x".to_string())
    );
    assert_eq!(
        told(place(ParentSeen::Directory, TargetSeen::Directory), true),
        (ErrorCode::IsADirectory, "is a directory: f.bin".to_string())
    );
    assert_eq!(
        told(place(ParentSeen::Directory, TargetSeen::Other), true),
        (
            ErrorCode::NotAFile,
            "target exists and is not a regular file: f.bin".to_string()
        )
    );
    assert_eq!(
        told(place(ParentSeen::Directory, TargetSeen::File), false),
        (
            ErrorCode::InvalidRequest,
            "target already exists: f.bin; pass overwrite=true to replace it".to_string()
        )
    );
    assert_eq!(
        told(place(ParentSeen::Directory, TargetSeen::Failed("y".to_string())), false),
        (ErrorCode::IoError, "y".to_string())
    );
    let nameless = Ok(UploadPlace {
        parent: ParentSeen::Directory,
        target: TargetSeen::Missing,
        file_name: None,
    });
    assert_eq!(
        told(nameless, false),
        (ErrorCode::InvalidRequest, "path has no file name".to_string())
    );
}

#[test]
fn staged_uploads_are_put_in_place() {
    let mut r = UploadRegistry::new();
    match r.register("x1".to_string(), pending(false)) {
        ResultBody::UploadPrepare(p) => {
            assert_eq!(p.transfer_id, "x1");
            assert_eq!(p.staging_path, "/w/.f.bin.abc.part");
        }
        _ => panic!("wrong body"),
    }
    r.register("x2".to_string(), pending(true));
    let file = |size| StagingSeen::File { size };
    assert_eq!(upload_commit(&r, "x1", 5, file(5)).ok(), Some(Install::Link));
    assert_eq!(upload_commit(&r, "x2", 5, file(5)).ok(), Some(Install::Rename));
    let e = upload_commit(&r, "x1", 5, file(4)).err().unwrap();
    assert_eq!(e.code, ErrorCode::InvalidRequest);
    assert_eq!(e.message, "staging file has 4 bytes but client declared 5");
    let e = upload_commit(&r, "x1", 5, StagingSeen::Other).err().unwrap();
    assert_eq!(e.message, "staging path is not a regular file");
    let e = upload_commit(&r, "x1", 5, StagingSeen::Failed("z".to_string())).err().unwrap();
    assert_eq!(e.message, "staging file unreadable: z");
    let e = upload_commit(&r, "x9", 5, file(5)).err().unwrap();
    assert_eq!((e.code, e.message.as_str()), (ErrorCode::OperationNotFound, "unknown transfer id: x9"));
    r.forget("x1");
    assert!(r.find("x1").is_none());
    assert!(r.find("x2").is_some());
}

#[test]
fn uploads_are_recorded_once_installed() {
    let mut store = OperationStore::new();
    let told = |store: &mut OperationStore, installed| {
        upload_record(store, "r1", &pending(false), installed, 5, "sha256:x", 9, 100)
    };
    let e = told(&mut store, Installed::TargetExists).err().unwrap();
    assert_eq!(e.code, ErrorCode::InvalidRequest);
    assert_eq!(
        e.message,
        "target was created while the upload ran: f.bin; pass overwrite=true to replace it"
    );
    let message = |store: &mut OperationStore, i| told(store, i).err().unwrap().message;
    assert_eq!(message(&mut store, Installed::RenameFailed("a".to_string())), "rename failed: a");
    assert_eq!(
        message(&mut store, Installed::LinkFailed("a".to_string())),
        "link into place failed: a"
    );
    assert_eq!(
        message(&mut store, Installed::RemoveFailed("a".to_string())),
        "remove staging failed: a"
    );
    assert_eq!(message(&mut store, Installed::SyncFailed("a".to_string())), "fsync target: a");
    let record = told(&mut store, Installed::Done).ok().unwrap();
    assert_eq!(record.operation_id, "op-1");
    assert_eq!(record.direction, TransferDirection::Upload);
    assert_eq!(record.path, "f.bin");
    match finish_transfer(&mut store, record, Ok(())) {
        Ok(ResultBody::Transfer(t)) => {
            assert_eq!(t.operation_id, "op-1");
            assert_eq!((t.size, t.duration_ms), (5, 9));
        }
        _ => panic!("wrong body"),
    }
    assert!(store.find_record("op-1").is_some());
}

#[test]
fn downloads_are_recorded() {
    let mut store = OperationStore::new();
    let cause = ProtocolError::new(ErrorCode::PathOutsideRoot, "no");
    assert!(download_record(&mut store, "r", "p", Err(cause), 1, "h", 2, 3).is_err());
    let record = download_record(&mut store, "r", "p", Ok(()), 1, "h", 2, 3).ok().unwrap();
    assert_eq!(record.operation_id, "op-1");
    assert_eq!(record.direction, TransferDirection::Download);
    let cause = ProtocolError::new(ErrorCode::IoError, "disk full");
    assert!(finish_transfer(&mut store, record, Err(cause)).is_err());
    assert!(store.find_record("op-1").is_none());
}

#[test]
fn aborted_uploads_are_forgotten() {
    let mut r = UploadRegistry::new();
    r.register("x1".to_string(), pending(false));
    assert_eq!(upload_abort(&mut r, "x1").ok(), Some(pending(false)));
    let e = upload_abort(&mut r, "x1").err().unwrap();
    assert_eq!(e.message, "unknown transfer id: x1");
    assert!(matches!(
        abort_result("x1", Ok(())),
        Ok(ResultBody::UploadAbort { transfer_id }) if transfer_id == "x1"
    ));
    assert_eq!(
        abort_result("x1", Err("busy".to_string())).unwrap_err().message,
        "remove staging failed: busy"
    );
}

#[test]
fn transfer_requests_are_decided() {
    let ws = Workspace { root: "/w".to_string(), scratch_root: "/s".to_string() };
    let (mut s, _) = Server::new(ws, OperationStore::new(), ServerConfig::default(), None);
    let body = RequestBody::UploadPrepare { path: "f.bin".to_string(), overwrite: false };
    assert_eq!(s.need(&body), Need::UploadPlace { path: "f.bin".to_string() });
    let seen = Observed::UploadPlace(place(ParentSeen::Directory, TargetSeen::Missing));
    assert!(matches!(s.decide(&body, seen), Decision::Stage(_)));
    s.uploads.register("x1".to_string(), pending(true));
    let body = RequestBody::UploadCommit {
        transfer_id: "x1".to_string(),
        size: 5,
        sha256: "h".to_string(),
        duration_ms: 1,
    };
    assert_eq!(s.need(&body), Need::Staging { staging: "/w/.f.bin.abc.part".to_string() });
    let seen = Observed::Staging(StagingSeen::File { size: 5 });
    assert!(matches!(
        s.decide(&body, seen),
        Decision::Install { install: Install::Rename, .. }
    ));
    let body = RequestBody::UploadAbort { transfer_id: "x1".to_string() };
    assert!(matches!(s.decide(&body, Observed::Nothing), Decision::Discard(_)));
    assert!(matches!(s.decide(&body, Observed::Nothing), Decision::Answer(Err(_))));
    let body = RequestBody::DownloadRecord {
        path: "p".to_string(),
        size: 1,
        sha256: "h".to_string(),
        duration_ms: 1,
    };
    assert_eq!(s.need(&body), Need::Place { path: "p".to_string() });
    assert!(matches!(s.decide(&body, Observed::Place(Ok(()))), Decision::Record));
}

#[test]
fn both_ends_of_a_transfer_agree() {
    let content = b"some content to move".to_vec();
    let mut out = Sending::new(content.len() as u64).unwrap();
    let mut input = Receiving::new();
    assert_eq!(out.header().size, 20);
    let mut at = 0;
    loop {
        let want = out.want(7);
        if want == 0 {
            break;
        }
        let chunk = &content[at..at + want];
        out.take("p", chunk).unwrap();
        assert!(input.take(chunk));
        at += want;
    }
    assert_eq!(at, 20);
    let trailer = out.finish();
    let meta = input.finish(20).unwrap();
    assert_eq!(meta.size, 20);
    assert_eq!(meta.sha256, trailer.sha256);
    assert_eq!(meta.sha256, hash_bytes(&content));
}

#[test]
fn transfers_that_fall_short_fail() {
    let mut input = Receiving::new();
    assert!(input.take(b"abc"));
    assert_eq!(
        input.finish(4).unwrap_err(),
        "received 3 bytes but caller declared 4"
    );
    let mut out = Sending::new(3).unwrap();
    assert_eq!(out.take("p", b"").unwrap_err(), "file shrank during send: p");
    assert!(Sending::new(1 << 61).is_none());
}
