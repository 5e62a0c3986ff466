use agent_remote::config::{default_shell, ConfigFile, Profile, ServerConfig};
use agent_remote::error::{ErrorCode, ProtocolError};
use agent_remote::exec::{
    extend_capped, plan_exec, shell_quote, spawn_failed, termination, ExecSession, StreamCapture,
    StreamEvent, WorkingDir,
};
use agent_remote::messages::{ExecEventKind, ExecTermination};
use agent_remote::utf8::{decode_lossy, decode_strict, Utf8Decoder};

#[test]
fn utf8_decoder_holds_split_codepoint() {
    // "é" is 0xC3 0xA9 (2 bytes). Feed the first byte, then the second.
    let mut dec = Utf8Decoder::new();
    assert_eq!(dec.feed(&[0xC3]), None, "leader alone is incomplete");
    let got = dec.feed(&[0xA9]).unwrap();
    assert_eq!(got, "é");
}

#[test]
fn utf8_decoder_emits_complete_prefix() {
    // "ab" + incomplete leader 0xC3 -> emit "ab", hold 0xC3.
    let mut dec = Utf8Decoder::new();
    let got = dec.feed(b"ab\xc3").unwrap();
    assert_eq!(got, "ab");
    assert_eq!(dec.flush(), Some("\u{FFFD}".into()));
}

#[test]
fn utf8_decoder_flushes_trailing_as_replacement() {
    let mut dec = Utf8Decoder::new();
    assert_eq!(dec.feed(&[0xE2, 0x82]), None); // 3-byte leader, 2 bytes
    let got = dec.flush().unwrap();
    assert_eq!(got, "\u{FFFD}");
}

#[test]
fn utf8_decoder_emits_replacement_for_invalid_byte() {
    // 0xFF is never a valid UTF-8 byte; it should be emitted as U+FFFD.
    let mut dec = Utf8Decoder::new();
    let got = dec.feed(b"\xFFok");
    assert_eq!(got, Some("\u{FFFD}ok".into()));
}

#[test]
fn extend_capped_stops_at_cap_and_reports_truncation() {
    let mut buf = Vec::new();
    assert!(!extend_capped(&mut buf, b"abc", 5));
    assert!(
        extend_capped(&mut buf, b"defg", 5),
        "crossing cap truncates"
    );
    assert_eq!(buf, b"abcde");
    assert!(extend_capped(&mut buf, b"x", 5), "already-full drops input");
    assert_eq!(buf, b"abcde");
}

#[test]
fn decoding_agrees_with_the_standard_library() {
    let samples: Vec<Vec<u8>> = vec![
        b"plain".to_vec(),
        "aé€😀z".as_bytes().to_vec(),
        vec![0xC0, 0x80],
        vec![0xED, 0xA0, 0x80],
        vec![0xE0, 0x9F, 0xBF],
        vec![0xF0, 0x8F, 0xBF, 0xBF],
        vec![0xF4, 0x90, 0x80, 0x80],
        vec![0xF5, 0x80],
        vec![0xE2, 0x82],
        vec![0xF0, 0x9F, 0x98],
        vec![0xF0, 0x9F, 0x41, 0xE2, 0x28, 0xA1],
        vec![0x80, 0xBF, 0xC3, 0x28],
    ];
    for bytes in samples {
        assert_eq!(decode_lossy(&bytes), String::from_utf8_lossy(&bytes).into_owned());
        assert_eq!(decode_strict(&bytes), String::from_utf8(bytes.clone()).ok());
    }
}

#[test]
fn two_byte_inputs_decode_as_in_the_standard_library() {
    for a in 0..=255u8 {
        for b in [0x00u8, 0x41, 0x7F, 0x80, 0x8F, 0x90, 0x9F, 0xA0, 0xBF, 0xC0, 0xC2, 0xE0, 0xF0, 0xFF] {
            let bytes = vec![a, b];
            assert_eq!(decode_lossy(&bytes), String::from_utf8_lossy(&bytes).into_owned());
        }
    }
}

#[test]
fn a_stream_decodes_alike_however_it_is_cut() {
    let bytes = "x€é😀\u{7ff}".as_bytes().to_vec();
    let mut all = bytes.clone();
    all.extend_from_slice(&[0xFF, 0xE2, 0x82]);
    let whole = String::from_utf8_lossy(&all).into_owned();
    for size in 1..all.len() {
        let mut dec = Utf8Decoder::new();
        let mut got = String::new();
        for piece in all.chunks(size) {
            if let Some(t) = dec.feed(piece) {
                got.push_str(&t);
            }
        }
        if let Some(t) = dec.flush() {
            got.push_str(&t);
        }
        assert_eq!(got, whole);
    }
}

#[test]
fn short_streams_are_previewed_whole() {
    let mut s = StreamCapture::new();
    s.take(b"hello");
    let p = s.preview();
    assert_eq!(p.prefix, "hello");
    assert_eq!(p.suffix, "");
    assert_eq!((p.total_bytes, p.omitted_bytes), (5, 0));
}

#[test]
fn long_streams_keep_both_ends() {
    let mut s = StreamCapture::new();
    let mut all: Vec<u8> = Vec::new();
    for i in 0..20000u32 {
        all.push(b'a' + (i % 26) as u8);
    }
    for piece in all.chunks(777) {
        s.take(piece);
    }
    let p = s.preview();
    assert_eq!(p.prefix.as_bytes(), &all[..4096]);
    assert_eq!(p.suffix.as_bytes(), &all[20000 - 12288..]);
    assert_eq!((p.total_bytes, p.omitted_bytes), (20000, 20000 - 16384));
}

#[test]
fn streams_of_just_the_preview_size_omit_nothing() {
    let mut s = StreamCapture::new();
    let all = vec![b'q'; 16384];
    s.take(&all);
    let p = s.preview();
    assert_eq!(p.prefix.len(), 4096);
    assert_eq!(p.suffix.len(), 12288);
    assert_eq!(p.omitted_bytes, 0);
}

#[test]
fn sessions_emit_events_and_flush_them() {
    let mut s = ExecSession::new(Some(100));
    let e = s.handle_stream_event(&StreamEvent::Stdout(b"hi\xc3".to_vec()));
    assert_eq!(e, Some(ExecEventKind::Stdout { data: "hi".to_string() }));
    let e = s.handle_stream_event(&StreamEvent::Stderr(vec![0xE2]));
    assert_eq!(e, None);
    let (a, b) = s.flush();
    assert_eq!(a, Some(ExecEventKind::Stdout { data: "\u{FFFD}".to_string() }));
    assert_eq!(b, Some(ExecEventKind::Stderr { data: "\u{FFFD}".to_string() }));
    let (o, out, err) = s.finish(Ok(Some(3)), "op-1".to_string(), 7).unwrap();
    assert_eq!(o.exit_code, 3);
    assert_eq!(o.stdout, b"hi\xc3");
    assert_eq!(o.duration_ms, 7);
    assert!(!o.timed_out && !o.output_truncated);
    assert_eq!(out.prefix, "hi\u{FFFD}");
    assert_eq!(err.total_bytes, 1);
    assert_eq!(termination(&o), ExecTermination::Exited { code: 3 });
}

#[test]
fn output_never_moves_the_deadline() {
    let mut s = ExecSession::new(Some(50));
    assert!(!s.poll(49));
    s.handle_stream_event(&StreamEvent::Stdout(b"busy".to_vec()));
    assert!(s.poll(50));
    let (o, _, _) = s.finish(Err("gone".to_string()), "op-2".to_string(), 51).unwrap();
    assert_eq!(o.exit_code, -1);
    assert!(o.timed_out);
    assert_eq!(termination(&o), ExecTermination::TimedOut);
}

#[test]
fn without_a_deadline_a_command_is_never_timed_out() {
    let mut s = ExecSession::new(None);
    assert!(!s.poll(300000));
    assert!(!s.poll(u64::MAX));
    let (o, _, _) = s.finish(Ok(Some(0)), "op-4".to_string(), 300001).unwrap();
    assert!(!o.timed_out);
    assert_eq!(o.exit_code, 0);
}

#[test]
fn waiting_can_fail() {
    let s = ExecSession::new(Some(50));
    let e = s.finish(Err("boom".to_string()), "op-3".to_string(), 1).unwrap_err();
    assert_eq!(e.code, ErrorCode::ExecFailed);
    assert_eq!(e.message, "wait failed: boom");
    let s = ExecSession::new(Some(50));
    let (o, _, _) = s.finish(Ok(None), "op-3".to_string(), 1).unwrap();
    assert_eq!(o.exit_code, -1);
    assert_eq!(spawn_failed("x").message, "spawn failed: x");
}

#[test]
fn words_are_quoted_where_they_have_to_be() {
    assert_eq!(shell_quote(""), "''");
    assert_eq!(shell_quote("a-b_c./=:9"), "a-b_c./=:9");
    assert_eq!(shell_quote("a b"), "'a b'");
    assert_eq!(shell_quote("it's"), r#"'it'\''s'"#);
    assert_eq!(shell_quote("é"), "'é'");
}

fn dir() -> Result<WorkingDir, ProtocolError> {
    Ok(WorkingDir { shown: "/w".to_string(), inside: true, is_dir: true })
}

fn argv(words: &[&str]) -> Vec<String> {
    words.iter().map(|w| w.to_string()).collect()
}

fn config(default_profile: Option<&str>) -> ServerConfig {
    let file = ConfigFile {
        default_profile: default_profile.map(|s| s.to_string()),
        profiles: vec![
            (
                "robot".to_string(),
                Profile { shell: default_shell(), setup: "source x".to_string() },
            ),
            (
                "zsh".to_string(),
                Profile { shell: argv(&["zsh", "-lic"]), setup: String::new() },
            ),
        ],
    };
    ServerConfig::load_from_str("text", Ok(file)).ok().unwrap()
}

#[test]
fn commands_without_a_profile_are_started_as_they_are() {
    let plan = plan_exec(&ServerConfig::default(), dir(), None, &argv(&["ls", "a b"]), None)
        .ok()
        .unwrap();
    assert_eq!(plan.command, argv(&["ls", "a b"]));
    assert_eq!(plan.timeout_ms, None);
}

#[test]
fn profiles_choose_the_shell_and_the_setup() {
    let c = config(Some("zsh"));
    let plan = plan_exec(&c, dir(), Some("robot"), &argv(&["ls", "a b"]), Some(5)).ok().unwrap();
    assert_eq!(plan.command, argv(&["bash", "-c", "source x\nexec ls 'a b'"]));
    assert_eq!(plan.timeout_ms, Some(5));
    let plan = plan_exec(&c, dir(), None, &argv(&["ls"]), None).ok().unwrap();
    assert_eq!(plan.command, argv(&["zsh", "-lic", "exec ls"]));
}

#[test]
fn exec_requests_are_refused_for_a_reason() {
    let c = config(None);
    let refusal = |cwd, profile, words: &[&str], timeout| {
        let e = plan_exec(&c, cwd, profile, &argv(words), timeout).err().unwrap();
        (e.code, e.message)
    };
    assert_eq!(
        refusal(dir(), None, &[], None),
        (ErrorCode::InvalidRequest, "argv must not be empty".to_string())
    );
    assert_eq!(
        refusal(dir(), Some("nope"), &["x"], None),
        (ErrorCode::InvalidRequest, "unknown profile: nope".to_string())
    );
    let outside = Ok(WorkingDir { shown: "/o".to_string(), inside: false, is_dir: true });
    assert_eq!(
        refusal(outside, None, &["x"], None),
        (ErrorCode::PathOutsideRoot, "cwd escapes workspace root".to_string())
    );
    for timeout in [None, Some(0), Some(3600001), Some(u64::MAX)] {
        let missing = Ok(WorkingDir { shown: "/w/m".to_string(), inside: true, is_dir: false });
        assert_eq!(
            refusal(missing, None, &["x"], timeout),
            (ErrorCode::NotFound, "cwd not found: /w/m".to_string())
        );
    }
    let cause = Err(ProtocolError::new(ErrorCode::PathOutsideRoot, "no"));
    assert_eq!(
        refusal(cause, None, &["x"], None),
        (ErrorCode::PathOutsideRoot, "no".to_string())
    );
}

#[test]
fn setup_is_looked_up_by_name() {
    let c = config(None);
    assert_eq!(c.setup_for(None).ok(), Some(""));
    assert_eq!(c.setup_for(Some("robot")).ok(), Some("source x"));
    let e = c.setup_for(Some("nope")).err().unwrap();
    assert_eq!((e.code, e.message.as_str()), (ErrorCode::InvalidRequest, "unknown profile: nope"));
}

#[test]
fn configurations_are_checked_when_they_are_loaded() {
    let c = ServerConfig::load_from_str(" \n\t", Err("unused".to_string())).ok().unwrap();
    assert!(c.default_profile.is_none());
    let e = ServerConfig::load_from_str("x", Err("bad toml".to_string())).err().unwrap();
    assert_eq!(e.message, "invalid server config: bad toml");
    let empty = ConfigFile {
        default_profile: None,
        profiles: vec![("p".to_string(), Profile { shell: vec![], setup: String::new() })],
    };
    let e = ServerConfig::load_from_str("x", Ok(empty)).err().unwrap();
    assert_eq!(e.message, "invalid server config: a profile has an empty shell");
    let undeclared = ConfigFile { default_profile: Some("p".to_string()), profiles: vec![] };
    let e = ServerConfig::load_from_str("x", Ok(undeclared)).err().unwrap();
    assert_eq!(e.message, "invalid server config: default_profile is not declared: p");
    assert_eq!(e.code, ErrorCode::InvalidRequest);
}

#[test]
fn no_break_space_is_blank() {
    assert!(ServerConfig::load_from_str("\u{a0}\u{2003}", Err("unused".to_string())).is_ok());
    assert!(ServerConfig::load_from_str("\u{200b}", Err("used".to_string())).is_err());
}

#[test]
fn white_space_is_what_the_standard_library_takes_for_it() {
    for n in 0..=0x10ffffu32 {
        if let Some(c) = char::from_u32(n) {
            assert_eq!(agent_remote::text::is_white_space(c), c.is_whitespace(), "{n:x}");
        }
    }
}

#[test]
fn commands_run_in_the_workspace_or_its_scratch_area() {
    let seen = |target| WorkingDir::seen("d".to_string(), target, "/w", "/s", true);
    assert!(seen("/w").inside);
    assert!(seen("/s/x").inside);
    assert!(!seen("/wx").inside);
    assert_eq!(seen("/w").shown, "d");
}
