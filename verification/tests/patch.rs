use agent_remote::error::ErrorCode;
use agent_remote::patch::apply_patch;

#[test]
fn change_line() {
    let original = "a\nb\nc\n";
    let patched = apply_patch(original, "2c BEE").unwrap();
    assert_eq!(patched, "a\nBEE\nc\n");
}

#[test]
fn delete_line() {
    let original = "a\nb\nc\n";
    let patched = apply_patch(original, "2d").unwrap();
    assert_eq!(patched, "a\nc\n");
}

#[test]
fn append_after() {
    let original = "a\nb\n";
    let patched = apply_patch(original, "1a INSERTED").unwrap();
    assert_eq!(patched, "a\nINSERTED\nb\n");
}

#[test]
fn append_at_start() {
    let original = "a\nb\n";
    let patched = apply_patch(original, "0a FIRST").unwrap();
    assert_eq!(patched, "FIRST\na\nb\n");
}

#[test]
fn comment_and_blank_ignored() {
    let original = "a\nb\n";
    let patched = apply_patch(original, "# hello\n\n1c ALPHA\n").unwrap();
    assert_eq!(patched, "ALPHA\nb\n");
}

#[test]
fn conflicting_edits_rejected() {
    let original = "a\nb\nc\n";
    let err = apply_patch(original, "2c X\n2d").unwrap_err();
    assert_eq!(err.code, ErrorCode::PatchFailed);
    assert_eq!(err.message, "conflicting edits at line 2");
}

#[test]
fn out_of_range_rejected() {
    let original = "a\n";
    let err = apply_patch(original, "9d").unwrap_err();
    assert_eq!(err.code, ErrorCode::PatchFailed);
    assert_eq!(err.message, "delete position 9 out of range (len 1)");
}

#[test]
fn preserves_no_trailing_newline() {
    let original = "a\nb";
    let patched = apply_patch(original, "1c X").unwrap();
    assert_eq!(patched, "X\nb");
}

#[test]
fn empty_patch_is_identity() {
    let original = "a\nb\nc\n";
    let patched = apply_patch(original, "").unwrap();
    assert_eq!(patched, original);
}

#[test]
fn comments_alone_are_identity() {
    for original in ["", "\n", "a", "a\n", "\n\n", "a\n\nb"] {
        assert_eq!(apply_patch(original, "# one\n\n#two").unwrap(), original);
    }
}

#[test]
fn edits_in_any_order_refer_to_the_original_lines() {
    let original = "a\nb\nc\n";
    assert_eq!(apply_patch(original, "3d\n1a x\n0a top\n2c B").unwrap(), "top\na\nx\nB\n");
    assert_eq!(apply_patch(original, "2c B\n0a top\n1a x\n3d").unwrap(), "top\na\nx\nB\n");
}

#[test]
fn the_text_is_taken_literally_after_one_space() {
    assert_eq!(apply_patch("a\n", "1c  two  spaces ").unwrap(), " two  spaces \n");
    assert_eq!(apply_patch("a\n", "1cno-space").unwrap(), "no-space\n");
    assert_eq!(apply_patch("a\n", "1c").unwrap(), "\n");
}

#[test]
fn malformed_lines_are_told_by_their_message() {
    let message = |script: &str| apply_patch("a\n", script).unwrap_err().message;
    assert_eq!(message("12"), "invalid patch line (no operator): \"12\"");
    assert_eq!(message("x"), "invalid line number in patch: \"\"");
    assert_eq!(
        message("99999999999999999999c x"),
        "invalid line number in patch: \"99999999999999999999\""
    );
    assert_eq!(message("1d x"), "delete edit must not carry text");
    assert_eq!(message("1z x"), "unknown patch operator 'z'");
    assert_eq!(message("1'"), "unknown patch operator '\\''");
}

#[test]
fn the_first_malformed_line_decides() {
    let err = apply_patch("a\n", "1c ok\n1z\n12").unwrap_err();
    assert_eq!(err.message, "unknown patch operator 'z'");
}

#[test]
fn the_lowest_conflict_is_named() {
    let err = apply_patch("a\n", "7d\n7d\n3d\n9d\n3c x").unwrap_err();
    assert_eq!(err.message, "conflicting edits at line 3");
}

#[test]
fn the_highest_edit_out_of_range_is_named() {
    let err = apply_patch("a\nb\n", "5a x\n7c y\n1d").unwrap_err();
    assert_eq!(err.message, "change position 7 out of range (len 2)");
    let err = apply_patch("a\nb\n", "3a x").unwrap_err();
    assert_eq!(err.message, "append position 3 out of range (len 2)");
}

#[test]
fn line_zero_can_only_be_appended_to() {
    let err = apply_patch("a\nb\n", "0d").unwrap_err();
    assert_eq!(err.message, "delete position 0 out of range (len 2)");
    let err = apply_patch("a\nb\n", "0c x\n1a y").unwrap_err();
    assert_eq!(err.message, "change position 0 out of range (len 3)");
}

#[test]
fn appending_at_the_end_is_in_range() {
    assert_eq!(apply_patch("a\nb", "2a c").unwrap(), "a\nb\nc");
    assert_eq!(apply_patch("", "1a x").unwrap(), "\nx");
}
