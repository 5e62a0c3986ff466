use agent_remote::error::{ErrorCode, ProtocolError};
use agent_remote::fs_ops::{
    check_base_hash, check_hash, delete, file_kind, list, patch, read, stat, Content, Directory, Effect,
    Lookup, NodeMeta, READ_MAX_LIMIT,
};
use agent_remote::hash::{hash12, hash_bytes, hash_state, written_digest, StreamHash};
use agent_remote::messages::{ListEntry, ListKind, ListResult, ReadResult, ResultBody};
use agent_remote::record::{FsOperationRecord, OperationKind};
use agent_remote::undo::{undo, undo_on};
use agent_remote::workspace::{
    check_inside, default_state_dir, escapes, is_within, join_path, locate, state_dir_named,
    state_dir_under, Base, Workspace,
};

fn with(content: &str) -> Result<Lookup<Content>, ProtocolError> {
    Ok(Lookup::Found(Content::Bytes(content.as_bytes().to_vec())))
}

fn page(r: Result<ResultBody, ProtocolError>) -> ReadResult {
    match r {
        Ok(ResultBody::Read(r)) => r,
        _ => panic!("wrong body"),
    }
}

#[test]
fn read_multibyte_offset_on_boundary_works() {
    // "éx" as UTF-8 is [0xC3,0xA9,0x78]; offset 2 lands on 'x'.
    let r = read("f.txt", with("éx"), Some(2), Some(1)).unwrap();
    match r {
        ResultBody::Read(r) => assert_eq!(r.content, "x"),
        _ => panic!("wrong body"),
    }
}

#[test]
fn read_multibyte_offset_off_boundary_rejected_not_panic() {
    // offset 1 is mid-codepoint; must return an error, NOT panic.
    let res = read("f.txt", with("éx"), Some(1), Some(1));
    match res {
        Err(ProtocolError {
            code: ErrorCode::InvalidRequest,
            ..
        }) => {}
        other => panic!("expected InvalidRequest, got {other:?}"),
    }
}

#[test]
fn read_limit_mid_codepoint_snaps_up_to_boundary() {
    // "aébc": bytes a=1, é=2, b=1, c=1 -> total 5. limit 2 from offset 0
    // would end mid-é (byte 2); round UP to the next boundary (byte 3,
    // after 'é') so the page makes progress and never returns empty.
    let r = read("f.txt", with("aébc"), Some(0), Some(2)).unwrap();
    match r {
        ResultBody::Read(r) => {
            assert_eq!(r.content, "aé");
            assert!(r.truncated, "more content remains");
            assert_eq!(r.next_offset, Some(3));
        }
        _ => panic!("wrong body"),
    }
}

#[test]
fn read_huge_offset_rejected_without_overflow() {
    let res = read("f.txt", with("hi"), Some(u64::MAX), Some(u64::MAX));
    assert!(matches!(
        res,
        Err(ProtocolError {
            code: ErrorCode::InvalidRequest,
            ..
        })
    ));
}

#[test]
fn read_rejects_limit_above_hard_maximum() {
    let result = read("f.txt", with("hi"), None, Some(READ_MAX_LIMIT + 1));
    assert!(matches!(
        result,
        Err(ProtocolError {
            code: ErrorCode::InvalidRequest,
            ..
        })
    ));
}

#[test]
fn read_errors_are_told_apart() {
    let told = |r: Result<ResultBody, ProtocolError>| {
        let e = r.unwrap_err();
        (e.code, e.message)
    };
    assert_eq!(
        told(read("f", Ok(Lookup::Missing), None, None)),
        (ErrorCode::NotFound, "not found: f".to_string())
    );
    assert_eq!(
        told(read("f", Ok(Lookup::Failed("x".to_string())), None, None)),
        (ErrorCode::IoError, "read failed: x".to_string())
    );
    assert_eq!(
        told(read("f", Ok(Lookup::Found(Content::Directory)), None, None)),
        (ErrorCode::IsADirectory, "is a directory: f".to_string())
    );
    assert_eq!(
        told(read("f", Ok(Lookup::Found(Content::Unreadable("y".to_string()))), None, None)),
        (ErrorCode::IoError, "read failed: y".to_string())
    );
    assert_eq!(
        told(read("f", Ok(Lookup::Found(Content::Bytes(vec![0xFF]))), None, None)),
        (
            ErrorCode::InvalidRequest,
            "file is not valid UTF-8; binary reads are not supported".to_string()
        )
    );
    assert_eq!(
        told(read("f", with("hi"), Some(3), None)),
        (ErrorCode::InvalidRequest, "offset 3 is past end of file (2 bytes)".to_string())
    );
    assert_eq!(
        told(read("f", with("é"), Some(1), None)),
        (ErrorCode::InvalidRequest, "offset 1 is not on a UTF-8 character boundary".to_string())
    );
    assert_eq!(
        told(read("f", with("hi"), None, Some(0))),
        (ErrorCode::InvalidRequest, "read limit must be between 1 and 65536 bytes".to_string())
    );
    let cause = ProtocolError::new(ErrorCode::PathOutsideRoot, "no");
    assert_eq!(
        told(read("f", Err(cause), None, None)),
        (ErrorCode::PathOutsideRoot, "no".to_string())
    );
}

#[test]
fn pages_put_together_give_the_file() {
    let content = "aé€😀z\nsecond line\n";
    for limit in 1..9u64 {
        let mut got = String::new();
        let mut offset = Some(0u64);
        while let Some(at) = offset {
            let r = page(read("f", with(content), Some(at), Some(limit)));
            assert!(!r.content.is_empty());
            assert_eq!(r.hash, Some(hash_bytes(content.as_bytes())));
            got.push_str(&r.content);
            offset = r.next_offset;
        }
        assert_eq!(got, content);
    }
}

#[test]
fn reading_at_the_end_gives_nothing_more() {
    let r = page(read("f", with("hi"), Some(2), None));
    assert_eq!(r.content, "");
    assert!(!r.truncated);
    assert_eq!(r.next_offset, None);
}

#[test]
fn hashes_are_sha256_in_hex() {
    assert_eq!(
        hash_bytes(b""),
        "sha256:e3b0c44298fc1c149afbf4c8996fb92427ae41e4649b934ca495991b7852b855"
    );
    assert_eq!(
        hash_bytes(b"abc"),
        "sha256:ba7816bf8f01cfea414140de5dae2223b00361a396177a9cb410ff61f20015ad"
    );
    assert_eq!(hash12(b"abc"), "ba7816bf8f01");
}

#[test]
fn hashing_in_pieces_gives_the_same_hash() {
    let mut h = StreamHash::new();
    assert!(h.update(b"a"));
    assert!(h.update(b""));
    assert!(h.update(b"bc"));
    assert_eq!(h.total(), 3);
    assert_eq!(h.finish(), hash_bytes(b"abc"));
}

fn entry(name: &str) -> ListEntry {
    ListEntry { name: name.to_string(), kind: ListKind::File, size: Some(1) }
}

fn listed(names: &[&str], offset: Option<usize>, limit: Option<usize>) -> ListResult {
    let entries = names.iter().map(|n| entry(n)).collect();
    match list("d", Ok(Lookup::Found(Directory::Entries(entries))), offset, limit) {
        Ok(ResultBody::List(r)) => r,
        _ => panic!("wrong body"),
    }
}

fn names(r: &ListResult) -> Vec<&str> {
    r.entries.iter().map(|e| e.name.as_str()).collect()
}

#[test]
fn listings_are_sorted_by_bytes_and_hide_the_server_directory() {
    let r = listed(&["b", "é", ".agent-remote", "B", "a", "ab", "z"], None, None);
    assert_eq!(names(&r), ["B", "a", "ab", "b", "z", "é"]);
    assert_eq!(r.next_offset, None);
}

#[test]
fn listings_come_in_pages() {
    let all = ["c", "a", "d", "b", "e"];
    let first = listed(&all, None, Some(2));
    assert_eq!(names(&first), ["a", "b"]);
    assert_eq!(first.next_offset, Some(2));
    let second = listed(&all, Some(2), Some(2));
    assert_eq!(names(&second), ["c", "d"]);
    assert_eq!(second.next_offset, Some(4));
    let third = listed(&all, Some(4), Some(2));
    assert_eq!(names(&third), ["e"]);
    assert_eq!(third.next_offset, None);
    assert!(listed(&all, Some(9), Some(2)).entries.is_empty());
    assert!(listed(&all, Some(usize::MAX), Some(1000)).entries.is_empty());
}

#[test]
fn a_large_directory_is_cut_at_the_limit() {
    let many: Vec<String> = (0..2500).map(|i| format!("f{i:05}")).rev().collect();
    let refs: Vec<&str> = many.iter().map(|s| s.as_str()).collect();
    let r = listed(&refs, None, None);
    assert_eq!(r.entries.len(), 1000);
    assert_eq!(r.entries[0].name, "f00000");
    assert_eq!(r.next_offset, Some(1000));
}

#[test]
fn list_errors_are_told_apart() {
    let told = |dir, limit| {
        let e = list("d", dir, None, limit).unwrap_err();
        (e.code, e.message)
    };
    assert_eq!(
        told(Ok(Lookup::Missing), Some(1001)),
        (
            ErrorCode::InvalidRequest,
            "list limit must be between 1 and 1000 entries".to_string()
        )
    );
    assert_eq!(
        told(Ok(Lookup::Missing), Some(0)).0,
        ErrorCode::InvalidRequest
    );
    assert_eq!(
        told(Ok(Lookup::Missing), None),
        (ErrorCode::NotFound, "not found: d".to_string())
    );
    assert_eq!(
        told(Ok(Lookup::Failed("x".to_string())), None),
        (ErrorCode::IoError, "list failed: x".to_string())
    );
    assert_eq!(
        told(Ok(Lookup::Found(Directory::NotADirectory)), None),
        (ErrorCode::NotADirectory, "not a directory: d".to_string())
    );
    assert_eq!(
        told(Ok(Lookup::Found(Directory::Unreadable("y".to_string()))), None),
        (ErrorCode::IoError, "read_dir failed: y".to_string())
    );
}

#[test]
fn stat_describes_what_is_there() {
    let meta = NodeMeta {
        is_symlink: false,
        is_dir: false,
        is_file: true,
        size: 3,
        mode: 0o100644,
        hash: Some("sha256:x".to_string()),
    };
    match stat("p", Ok(Lookup::Found(meta))) {
        Ok(ResultBody::Stat { stat }) => {
            assert_eq!(stat.path, "p");
            assert_eq!(stat.kind, ListKind::File);
            assert_eq!(stat.size, 3);
            assert_eq!(stat.hash.as_deref(), Some("sha256:x"));
            let mode = stat.mode.unwrap();
            assert!(mode.readable && mode.writable && !mode.executable);
        }
        _ => panic!("wrong body"),
    }
    let meta = NodeMeta {
        is_symlink: false,
        is_dir: true,
        is_file: false,
        size: 0,
        mode: 0o040555,
        hash: Some("sha256:x".to_string()),
    };
    match stat("d", Ok(Lookup::Found(meta))) {
        Ok(ResultBody::Stat { stat }) => {
            assert_eq!(stat.kind, ListKind::Dir);
            assert_eq!(stat.hash, None);
            let mode = stat.mode.unwrap();
            assert!(mode.readable && !mode.writable && mode.executable);
        }
        _ => panic!("wrong body"),
    }
    let e = stat("d", Ok(Lookup::Failed("x".to_string()))).unwrap_err();
    assert_eq!(e.message, "stat failed: x");
    assert_eq!(file_kind(true, true), ListKind::Symlink);
}

#[test]
fn stale_writes_are_refused_with_both_hashes() {
    let current = Some(b"now".to_vec());
    let base = Some("sha256:then".to_string());
    let e = agent_remote::fs_ops::write("f", &current, "new", &base).err().unwrap();
    assert_eq!(e.code, ErrorCode::StaleFile);
    assert_eq!(e.message, "file changed since base_hash");
    assert_eq!(e.expected_hash.as_deref(), Some("sha256:then"));
    assert_eq!(e.actual_hash, Some(hash_bytes(b"now")));
    let e = check_base_hash(&None, &base).err().unwrap();
    assert_eq!(e.message, "file does not exist but base_hash was given");
    assert_eq!(e.actual_hash.as_deref(), Some("sha256:"));
    assert_eq!(check_base_hash(&None, &None).ok(), Some(None));
}

#[test]
fn a_read_hash_is_accepted_as_the_base_of_a_write() {
    let r = page(read("f", with("old"), None, None));
    let m = agent_remote::fs_ops::write("f", &Some(b"old".to_vec()), "new", &r.hash).ok().unwrap();
    assert_eq!(m.kind, OperationKind::Write);
    assert_eq!(m.before_hash, Some(hash_bytes(b"old")));
    assert_eq!(m.after_hash, hash_bytes(b"new"));
    assert!(matches!(m.effect, Effect::Put(b) if b == b"new"));
}

#[test]
fn patches_are_decided_on_the_content() {
    let old = Some(b"a\nb\n".to_vec());
    let base = hash_bytes(b"a\nb\n");
    let m = patch("f", &old, &base, "2c B").ok().unwrap();
    assert_eq!(m.after_hash, hash_bytes(b"a\nB\n"));
    assert!(matches!(m.effect, Effect::Put(b) if b == b"a\nB\n"));
    assert_eq!(patch("f", &old, "sha256:", "2c B").err().unwrap().code, ErrorCode::StaleFile);
    assert_eq!(patch("f", &None, &base, "2c B").err().unwrap().code, ErrorCode::StaleFile);
    assert_eq!(patch("f", &old, &base, "9d").err().unwrap().code, ErrorCode::PatchFailed);
    let e = patch("f", &Some(vec![0xFF]), &hash_bytes(&[0xFF]), "1d").err().unwrap();
    assert_eq!(
        e.message,
        "patch target is not valid UTF-8; patching binary files is unsupported"
    );
}

#[test]
fn deletes_need_a_file() {
    let m = delete("f", false, &Some(b"x".to_vec())).ok().unwrap();
    assert_eq!(m.after_hash, "sha256:");
    assert!(matches!(m.effect, Effect::Remove));
    let e = delete("f", false, &None).err().unwrap();
    assert_eq!((e.code, e.message.as_str()), (ErrorCode::NotFound, "not found: f"));
    let e = delete("d", true, &None).err().unwrap();
    assert_eq!((e.code, e.message.as_str()), (ErrorCode::IsADirectory, "not a file: d"));
}

fn record(kind: OperationKind, before: Option<&[u8]>, after: Option<&[u8]>) -> FsOperationRecord {
    FsOperationRecord {
        operation_id: "op-7".to_string(),
        request_id: "r".to_string(),
        kind,
        path: "f".to_string(),
        before_hash: before.map(hash_bytes),
        after_hash: after.map(hash_bytes).unwrap_or("sha256:".to_string()),
        timestamp_ms: 1,
    }
}

#[test]
fn undo_puts_the_content_back() {
    let r = record(OperationKind::Write, Some(b"old"), Some(b"new"));
    let m = undo(&r, &Some(b"new".to_vec()), &Some(b"old".to_vec())).ok().unwrap();
    assert_eq!(m.kind, OperationKind::Undo);
    assert_eq!(m.path, "f");
    assert!(matches!(m.effect, Effect::Put(b) if b == b"old"));
    assert_eq!(m.after_hash, hash_bytes(b"old"));
}

#[test]
fn undo_of_a_creation_removes_and_of_a_removal_restores() {
    let r = record(OperationKind::Write, None, Some(b"new"));
    let m = undo(&r, &Some(b"new".to_vec()), &None).ok().unwrap();
    assert!(matches!(m.effect, Effect::Remove));
    let r = record(OperationKind::Delete, Some(b"old"), None);
    let m = undo(&r, &None, &Some(b"old".to_vec())).ok().unwrap();
    assert!(matches!(m.effect, Effect::Put(b) if b == b"old"));
}

#[test]
fn undo_refuses_what_it_would_clobber_or_cannot_restore() {
    let r = record(OperationKind::Write, Some(b"old"), Some(b"new"));
    let e = undo(&r, &Some(b"later".to_vec()), &Some(b"old".to_vec())).err().unwrap();
    assert_eq!(e.code, ErrorCode::UndoConflict);
    assert_eq!(e.message, "file changed since operation op-7");
    assert_eq!(e.actual_hash, Some(hash_bytes(b"later")));
    let e = undo(&r, &Some(b"new".to_vec()), &None).err().unwrap();
    assert_eq!(e.code, ErrorCode::IoError);
    let r = record(OperationKind::Undo, Some(b"old"), Some(b"new"));
    let e = undo(&r, &Some(b"new".to_vec()), &Some(b"old".to_vec())).err().unwrap();
    assert_eq!(e.message, "cannot undo an undo operation");
}

#[test]
fn paths_are_kept_inside_the_workspace() {
    let place = locate("src/./main.py").ok().unwrap();
    assert_eq!(place.base, Base::Root);
    assert_eq!(place.names, ["src", "main.py"]);
    let place = locate("@scratch/logs//x").ok().unwrap();
    assert_eq!(place.base, Base::Scratch);
    assert_eq!(place.names, ["logs", "x"]);
    assert!(locate(".").ok().unwrap().names.is_empty());
    assert!(locate("").ok().unwrap().names.is_empty());
    assert_eq!(locate("a@scratch/x").ok().unwrap().base, Base::Root);
    let e = locate("/etc/passwd").err().unwrap();
    assert_eq!(e.code, ErrorCode::PathOutsideRoot);
    assert_eq!(e.message, "absolute path not allowed: /etc/passwd");
    let e = locate("a/../b").err().unwrap();
    assert_eq!(e.message, "path escapes workspace root: a/../b");
    assert!(locate("@scratch/..").is_err());
    assert!(locate("..a/b..").is_ok());
    assert_eq!(escapes("p").message, "path escapes workspace root: p");
}

#[test]
fn places_become_paths_in_their_directory() {
    let ws = Workspace { root: "/w".to_string(), scratch_root: "/s/scratch".to_string() };
    assert_eq!(ws.path_of(&locate("a/b").ok().unwrap()), "/w/a/b");
    assert_eq!(ws.path_of(&locate(".").ok().unwrap()), "/w");
    assert_eq!(ws.path_of(&locate("@scratch/a").ok().unwrap()), "/s/scratch/a");
    assert_eq!(join_path("/", "a"), "/a");
}

#[test]
fn lying_in_a_directory_goes_by_whole_names() {
    assert!(is_within("/w", "/w"));
    assert!(is_within("/w", "/w/a"));
    assert!(!is_within("/w", "/wa"));
    assert!(!is_within("/w/a", "/w"));
    assert!(is_within("/", "/x"));
    assert!(!is_within("/w", "/v/a"));
}

#[test]
fn keyed_by_canonical_root() {
    let home = tempfile::tempdir().unwrap();
    let root = tempfile::tempdir().unwrap();
    let dir_for = |root: &std::path::Path| {
        let canonical = root.canonicalize().unwrap();
        let name = canonical.file_name().map(|n| n.to_string_lossy().into_owned());
        default_state_dir(
            home.path().to_str().unwrap(),
            name.as_deref(),
            canonical.as_os_str().as_encoded_bytes(),
        )
    };
    let a = dir_for(root.path());
    // A relative-ish spelling of the same root maps to the same directory.
    let dotted = root.path().join(".");
    let b = dir_for(&dotted);
    assert_eq!(a, b);
    let a = std::path::PathBuf::from(a);
    assert!(a.starts_with(home.path().join(".agent-remote/state")));
    let leaf = a.file_name().unwrap().to_string_lossy().into_owned();
    let root_name = root.path().file_name().unwrap().to_string_lossy();
    assert!(leaf.starts_with(&format!("{root_name}-")));
}

#[test]
fn state_directories_end_in_name_and_hash() {
    assert_eq!(state_dir_under("/b", Some("p"), b"abc"), "/b/state/p-ba7816bf8f01");
    assert_eq!(default_state_dir("/h", None, b"abc"), "/h/.agent-remote/state/root-ba7816bf8f01");
}

#[test]
fn hashes_are_compared_as_they_are_written() {
    assert_eq!(written_digest(&[0x0a, 0xff, 0x30]), "sha256:0aff30");
    assert_eq!(hash_state(&None), None);
    assert_eq!(hash_state(&Some(b"x".to_vec())), Some(hash_bytes(b"x")));
    let a = Some("sha256:aa".to_string());
    let b = Some("sha256:bb".to_string());
    assert_eq!(check_hash(a.clone(), &a).ok().unwrap(), a);
    assert_eq!(check_hash(a.clone(), &None).ok().unwrap(), a);
    assert_eq!(check_hash(None, &None).ok().unwrap(), None);
    let e = check_hash(a.clone(), &b).err().unwrap();
    assert_eq!(e.code, ErrorCode::StaleFile);
    assert_eq!(e.message, "file changed since base_hash");
    assert_eq!(e.expected_hash, b);
    assert_eq!(e.actual_hash, a);
    let e = check_hash(None, &b).err().unwrap();
    assert_eq!(e.message, "file does not exist but base_hash was given");
    assert_eq!(e.actual_hash.unwrap(), "sha256:");
}

#[test]
fn undo_goes_by_the_hashes() {
    let mut r = record(OperationKind::Write, Some(b"old"), Some(b"new"));
    r.before_hash = Some("sha256:aa".to_string());
    r.after_hash = "sha256:bb".to_string();
    let found = Some("sha256:bb".to_string());
    let kept = Some(b"old".to_vec());
    let m = undo_on(&r, found.clone(), &kept, Some("sha256:aa".to_string())).ok().unwrap();
    assert_eq!(m.before_hash, found);
    assert_eq!(m.after_hash, "sha256:aa");
    assert!(matches!(m.effect, Effect::Put(b) if b == b"old"));
    let e = undo_on(&r, found.clone(), &kept, Some("sha256:cc".to_string())).err().unwrap();
    assert_eq!(e.code, ErrorCode::IoError);
    let e = undo_on(&r, None, &kept, Some("sha256:aa".to_string())).err().unwrap();
    assert_eq!(e.code, ErrorCode::UndoConflict);
    assert_eq!(e.actual_hash.unwrap(), "sha256:");
}

#[test]
fn state_directories_are_named_by_root_and_hash() {
    assert_eq!(state_dir_named("/b", Some("p"), "0123456789ab"), "/b/state/p-0123456789ab");
    assert_eq!(state_dir_named("/b/", None, "0123456789ab"), "/b/state/root-0123456789ab");
}

#[test]
fn no_page_is_longer_than_the_maximum() {
    // A character of two bytes lies across the largest page's end.
    let text = format!("{}é{}", "a".repeat(65535), "b".repeat(10));
    for limit in [None, Some(READ_MAX_LIMIT)] {
        let p = page(read("f", with(&text), None, limit));
        assert_eq!(p.content.len(), 65535);
        assert_eq!(p.next_offset, Some(65535));
        let p = page(read("f", with(&text), p.next_offset, limit));
        assert_eq!(p.content, format!("é{}", "b".repeat(10)));
        assert_eq!(p.next_offset, None);
    }
    // One that ends where the largest page ends is kept whole.
    let p = page(read("f", with(&text), Some(1), Some(65535)));
    assert_eq!(p.content.len(), 65536);
    assert_eq!(p.next_offset, Some(65537));
    // One of four bytes is left to the next page at a limit just below.
    let text = format!("{}😀{}", "a".repeat(65533), "b".repeat(10));
    let p = page(read("f", with(&text), None, Some(65534)));
    assert_eq!(p.next_offset, Some(65533));
}

#[test]
fn links_must_not_lead_out() {
    assert!(check_inside("a/l", "/w", "/w/b/c").is_ok());
    assert!(check_inside(".", "/w", "/w").is_ok());
    let e = check_inside("a/l", "/w", "/wx/c").err().unwrap();
    assert_eq!(e.code, ErrorCode::PathOutsideRoot);
    assert_eq!(e.message, "path escapes workspace root: a/l");
}
