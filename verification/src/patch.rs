//! The line-based edit script that `patch` requests carry.
//!
//! One edit per line, with 1-based line numbers that refer to the original
//! content: `<n>c <text>` changes line `n`, `<n>d` deletes it, `<n>a <text>`
//! inserts after it (`0a` inserts at the top). Blank lines and lines that start
//! with `#` are ignored. A script with conflicting or out-of-range edits is
//! rejected as a whole.

use std::collections::HashMap;

use vstd::prelude::*;

use crate::error::{ErrorCode, ProtocolError};
use crate::text;

verus! {

/// One edit of the script, as the contracts see it.
pub enum EditView {
    Append { line: nat, text: Seq<char> },
    Delete { line: nat },
    Change { line: nat, text: Seq<char> },
}

impl EditView {
    /// The line of the original content that the edit refers to.
    pub open spec fn line(self) -> nat {
        match self {
            EditView::Append { line, .. } => line,
            EditView::Delete { line } => line,
            EditView::Change { line, .. } => line,
        }
    }

    /// The word by which an error message names the edit.
    pub open spec fn word(self) -> Seq<char> {
        match self {
            EditView::Append { .. } => "append"@,
            EditView::Delete { .. } => "delete"@,
            EditView::Change { .. } => "change"@,
        }
    }
}

enum Edit {
    Append(usize, String),
    Delete(usize),
    Change(usize, String),
}

impl View for Edit {
    type V = EditView;

    closed spec fn view(&self) -> EditView {
        match self {
            Edit::Append(n, t) => EditView::Append { line: *n as nat, text: t@ },
            Edit::Delete(n) => EditView::Delete { line: *n as nat },
            Edit::Change(n, t) => EditView::Change { line: *n as nat, text: t@ },
        }
    }
}

impl Edit {
    fn line(&self) -> (n: usize)
        ensures
            n == self@.line(),
    {
        match self {
            Edit::Append(n, _) => *n,
            Edit::Delete(n) => *n,
            Edit::Change(n, _) => *n,
        }
    }

    fn word(&self) -> (w: &'static str)
        ensures
            w@ == self@.word(),
    {
        match self {
            Edit::Append(_, _) => "append",
            Edit::Delete(_) => "delete",
            Edit::Change(_, _) => "change",
        }
    }
}

spec fn edit_views(edits: Seq<Edit>) -> Seq<EditView> {
    edits.map_values(|e: Edit| e@)
}

/// Whether `index` gives, for each line that an edit refers to, the position of
/// that edit.
spec fn indexes(index: Map<usize, usize>, edits: Seq<EditView>) -> bool {
    &&& forall|i: int|
        0 <= i < edits.len() ==> index.contains_key((#[trigger] edits[i]).line() as usize)
            && index[edits[i].line() as usize] == i
    &&& forall|n: usize| #[trigger]
        index.contains_key(n) ==> index[n] < edits.len() && edits[index[n] as int].line() == n
}

/// What one line of the script says: nothing, an edit, or something malformed
/// (with the message of the error).
pub enum LineView {
    Skip,
    Edit(EditView),
    Bad(Seq<char>),
}

enum Line {
    Skip,
    Edit(Edit),
    Bad(String),
}

impl View for Line {
    type V = LineView;

    closed spec fn view(&self) -> LineView {
        match self {
            Line::Skip => LineView::Skip,
            Line::Edit(e) => LineView::Edit(e@),
            Line::Bad(m) => LineView::Bad(m@),
        }
    }
}

/// The `Debug` form of a character: the character between single quotes, with
/// what needs escaping escaped.
pub uninterp spec fn char_debug(c: char) -> Seq<char>;

/// `<char as Debug>::fmt`, through `format!`. The contract only names the
/// result, which depends on the character alone.
#[verifier::external_body]
fn debug_char(c: char) -> (out: String)
    ensures
        out@ == char_debug(c),
{
    format!("{:?}", c)
}

/// How many digits `line` starts with.
pub open spec fn digit_run(line: Seq<char>) -> nat
    decreases line.len(),
{
    if line.len() > 0 && text::is_digit(line[0]) {
        1 + digit_run(line.drop_first())
    } else {
        0
    }
}

/// `arg` without the one space that separates it from the operator.
pub open spec fn argument_text(arg: Seq<char>) -> Seq<char> {
    if arg.len() > 0 && arg[0] == ' ' {
        arg.drop_first()
    } else {
        arg
    }
}

/// What one line of the script says.
pub open spec fn parse_line(line: Seq<char>) -> LineView {
    let k = digit_run(line) as int;
    let number = line.take(k);
    let arg = line.skip(k + 1);
    if line.len() == 0 || line[0] == '#' {
        LineView::Skip
    } else if k == line.len() {
        LineView::Bad("invalid patch line (no operator): \""@ + line + "\""@)
    } else if k == 0 || text::digits_value(number) > usize::MAX {
        LineView::Bad("invalid line number in patch: \""@ + number + "\""@)
    } else if line[k] == 'a' {
        LineView::Edit(
            EditView::Append { line: text::digits_value(number), text: argument_text(arg) },
        )
    } else if line[k] == 'd' {
        if arg.len() > 0 {
            LineView::Bad("delete edit must not carry text"@)
        } else {
            LineView::Edit(EditView::Delete { line: text::digits_value(number) })
        }
    } else if line[k] == 'c' {
        LineView::Edit(
            EditView::Change { line: text::digits_value(number), text: argument_text(arg) },
        )
    } else {
        LineView::Bad("unknown patch operator "@ + char_debug(line[k]))
    }
}

/// The edits of a script, or the message of its first malformed line.
pub open spec fn parse_script(lines: Seq<Seq<char>>) -> Result<Seq<EditView>, Seq<char>>
    decreases lines.len(),
{
    if lines.len() == 0 {
        Ok(Seq::<EditView>::empty())
    } else {
        match parse_script(lines.drop_last()) {
            Err(m) => Err(m),
            Ok(edits) => match parse_line(lines.last()) {
                LineView::Skip => Ok(edits),
                LineView::Edit(e) => Ok(edits.push(e)),
                LineView::Bad(m) => Err(m),
            },
        }
    }
}

/// Whether some edit refers to line `n`.
pub open spec fn targeted(edits: Seq<EditView>, n: nat) -> bool {
    exists|i: int| 0 <= i < edits.len() && (#[trigger] edits[i]).line() == n
}

/// Whether two edits refer to line `n`.
pub open spec fn repeated(edits: Seq<EditView>, n: nat) -> bool {
    exists|i: int, j: int|
        0 <= i < j < edits.len() && (#[trigger] edits[i]).line() == n && (
        #[trigger] edits[j]).line() == n
}

/// Whether `n` is the smallest line number that two edits refer to.
pub open spec fn is_first_conflict(edits: Seq<EditView>, n: nat) -> bool {
    &&& repeated(edits, n)
    &&& forall|m: nat| m < n ==> !#[trigger] repeated(edits, m)
}

/// Whether `e` is an edit of the script and none refers to a later line.
pub open spec fn is_highest(edits: Seq<EditView>, e: EditView) -> bool {
    &&& edits.contains(e)
    &&& forall|i: int| 0 <= i < edits.len() ==> (#[trigger] edits[i]).line() <= e.line()
}

/// The edit that refers to line `n`, if there is one.
pub open spec fn edit_at(edits: Seq<EditView>, n: nat) -> Option<EditView> {
    if targeted(edits, n) {
        Some(edits[choose|i: int| 0 <= i < edits.len() && (#[trigger] edits[i]).line() == n])
    } else {
        None
    }
}

/// What the edits put above the first line.
pub open spec fn top_block(edits: Seq<EditView>) -> Seq<Seq<char>> {
    match edit_at(edits, 0) {
        Some(EditView::Append { text, .. }) => seq![text],
        _ => seq![],
    }
}

/// What the edits put in place of the `n`th line, counted from one.
pub open spec fn line_block(lines: Seq<Seq<char>>, edits: Seq<EditView>, n: nat) -> Seq<
    Seq<char>,
> {
    match edit_at(edits, n) {
        None => seq![lines[n - 1]],
        Some(EditView::Append { text, .. }) => seq![lines[n - 1], text],
        Some(EditView::Delete { .. }) => seq![],
        Some(EditView::Change { text, .. }) => seq![text],
    }
}

/// What the edits make of the first `n` lines.
pub open spec fn edited(lines: Seq<Seq<char>>, edits: Seq<EditView>, n: nat) -> Seq<Seq<char>>
    decreases n,
{
    if n == 0 {
        top_block(edits)
    } else {
        edited(lines, edits, (n - 1) as nat) + line_block(lines, edits, n)
    }
}

/// Whether the text ends with a newline.
pub open spec fn ends_with_newline(s: Seq<char>) -> bool {
    s.len() > 0 && s.last() == '\n'
}

/// The lines of a text, where a newline at the very end ends the last line
/// instead of starting another.
pub open spec fn lines_of(s: Seq<char>) -> Seq<Seq<char>> {
    let pieces = text::split(s, '\n');
    if ends_with_newline(s) {
        pieces.drop_last()
    } else {
        pieces
    }
}

/// The message of the error that refuses `e` when there are `len` lines.
pub open spec fn out_of_range(e: EditView, len: nat) -> Seq<char> {
    e.word() + " position "@ + text::decimal(e.line()) + " out of range (len "@ + text::decimal(len)
        + ")"@
}

/// The text that lines make up, with a newline at the end where `newline` says
/// so.
pub open spec fn text_of(lines: Seq<Seq<char>>, newline: bool) -> Seq<char> {
    if newline {
        text::join(lines, seq!['\n']).push('\n')
    } else {
        text::join(lines, seq!['\n'])
    }
}

/// What becomes of `original` under the parsed edits, or the message of the
/// error that refuses them.
pub open spec fn apply_edits(original: Seq<char>, edits: Seq<EditView>) -> Result<
    Seq<char>,
    Seq<char>,
> {
    let lines = lines_of(original);
    let out = edited(lines, edits, lines.len());
    if exists|n: nat| repeated(edits, n) {
        Err("conflicting edits at line "@ + text::decimal(choose|n: nat| is_first_conflict(edits, n)))
    } else if exists|n: nat| n > lines.len() && targeted(edits, n) {
        Err(out_of_range(choose|e: EditView| is_highest(edits, e), lines.len()))
    } else {
        match edit_at(edits, 0) {
            Some(EditView::Delete { line }) => Err(
                out_of_range(EditView::Delete { line }, out.len()),
            ),
            Some(EditView::Change { line, text }) => Err(
                out_of_range(EditView::Change { line, text }, out.len()),
            ),
            _ => Ok(text_of(out, ends_with_newline(original))),
        }
    }
}

/// What becomes of `original` under the script `patch`, or the message of the
/// error that refuses it.
pub open spec fn patched(original: Seq<char>, patch: Seq<char>) -> Result<Seq<char>, Seq<char>> {
    match parse_script(text::split(patch, '\n')) {
        Err(m) => Err(m),
        Ok(edits) => apply_edits(original, edits),
    }
}

/// The number that the first `k` characters of `line` denote, if they denote
/// one that fits.
fn parse_number(line: &Vec<char>, k: usize) -> (n: Option<usize>)
    requires
        k <= line@.len(),
        forall|j: int| 0 <= j < k ==> text::is_digit(#[trigger] line@[j]),
    ensures
        match n {
            Some(v) => k > 0 && v == text::digits_value(line@.take(k as int)),
            None => k == 0 || text::digits_value(line@.take(k as int)) > usize::MAX,
        },
{
    if k == 0 {
        return None;
    }
    let digits = vstd::slice::slice_subrange(line.as_slice(), 0, k);
    assert(digits@ =~= line@.take(k as int));
    match text::parse_digits(digits) {
        Some(v) => if v <= usize::MAX as u64 {
            Some(v as usize)
        } else {
            None
        },
        None => None,
    }
}

fn leading_digits(line: &Vec<char>) -> (k: usize)
    ensures
        k == digit_run(line@),
        k <= line@.len(),
        forall|j: int| 0 <= j < k ==> text::is_digit(#[trigger] line@[j]),
{
    let n: usize = line.len();
    let mut i: usize = 0;
    assert(line@.skip(0) =~= line@);
    while i < n && line[i] >= '0' && line[i] <= '9'
        invariant
            i <= n,
            n == line@.len(),
            digit_run(line@) == i + digit_run(line@.skip(i as int)),
            forall|j: int| 0 <= j < i ==> text::is_digit(#[trigger] line@[j]),
        decreases n - i,
    {
        assert(line@.skip(i as int).drop_first() =~= line@.skip(i + 1));
        i += 1;
    }
    i
}

/// The characters of `line` from position `from` on, as a string.
fn tail_string(line: &Vec<char>, from: usize) -> (out: String)
    requires
        from <= line@.len(),
    ensures
        out@ == line@.skip(from as int),
{
    let rest = vstd::slice::slice_subrange(line.as_slice(), from, line.len());
    assert(rest@ =~= line@.skip(from as int));
    text::string_of(rest)
}

/// The text that follows an operator at position `k` of `line`.
fn edit_text(line: &Vec<char>, k: usize) -> (out: String)
    requires
        k < line@.len(),
    ensures
        out@ == argument_text(line@.skip(k + 1)),
{
    let ghost arg = line@.skip(k + 1);
    let n: usize = line.len();
    if k + 1 < n && line[k + 1] == ' ' {
        assert(arg.drop_first() =~= line@.skip(k + 2));
        tail_string(line, k + 2)
    } else {
        tail_string(line, k + 1)
    }
}

fn read_line(line: &Vec<char>) -> (out: Line)
    ensures
        out@ == parse_line(line@),
{
    let n: usize = line.len();
    if n == 0 || line[0] == '#' {
        return Line::Skip;
    }
    let k = leading_digits(line);
    if k == n {
        let whole = text::string_of(line.as_slice());
        return Line::Bad(
            text::concat3("invalid patch line (no operator): \"", whole.as_str(), "\""),
        );
    }
    let number = match parse_number(line, k) {
        Some(v) => v,
        None => {
            let digits = vstd::slice::slice_subrange(line.as_slice(), 0, k);
            assert(digits@ =~= line@.take(k as int));
            let shown = text::string_of(digits);
            return Line::Bad(
                text::concat3("invalid line number in patch: \"", shown.as_str(), "\""),
            );
        },
    };
    let op = line[k];
    if op == 'a' {
        Line::Edit(Edit::Append(number, edit_text(line, k)))
    } else if op == 'd' {
        if k + 1 < n {
            Line::Bad("delete edit must not carry text".to_owned())
        } else {
            Line::Edit(Edit::Delete(number))
        }
    } else if op == 'c' {
        Line::Edit(Edit::Change(number, edit_text(line, k)))
    } else {
        Line::Bad(text::concat("unknown patch operator ", debug_char(op).as_str()))
    }
}

/// The edits of the script `patch`, or the message of its first malformed line.
fn read_script(patch: &str) -> (out: Result<Vec<Edit>, String>)
    ensures
        match out {
            Ok(edits) => parse_script(text::split(patch@, '\n')) == Ok::<
                Seq<EditView>,
                Seq<char>,
            >(edit_views(edits@)),
            Err(m) => parse_script(text::split(patch@, '\n')) == Err::<Seq<EditView>, Seq<char>>(
                m@,
            ),
        },
{
    let chars = text::chars_of(patch);
    let raw = text::split_chars(chars.as_slice(), '\n');
    let ghost lines = text::split(patch@, '\n');
    let mut edits: Vec<Edit> = Vec::new();
    let n: usize = raw.len();
    let mut i: usize = 0;
    assert(lines.len() == n);
    assert(lines.take(0) =~= Seq::<Seq<char>>::empty());
    assert(edit_views(edits@) =~= Seq::<EditView>::empty());
    while i < n
        invariant
            i <= n,
            n == raw@.len(),
            lines == text::split(patch@, '\n'),
            raw@.map_values(|p: Vec<char>| p@) == lines,
            parse_script(lines.take(i as int)) == Ok::<Seq<EditView>, Seq<char>>(
                edit_views(edits@),
            ),
        decreases n - i,
    {
        proof {
            assert(lines.take(i + 1).drop_last() =~= lines.take(i as int));
            assert(lines.take(i + 1).last() == raw@[i as int]@);
        }
        match read_line(&raw[i]) {
            Line::Skip => {},
            Line::Edit(e) => {
                let ghost before = edits@;
                edits.push(e);
                assert(edit_views(edits@) =~= edit_views(before).push(e@));
            },
            Line::Bad(m) => {
                proof {
                    script_error_stays(lines, i + 1, n as int);
                    assert(lines.take(n as int) =~= lines);
                }
                return Err(m);
            },
        }
        i += 1;
    }
    assert(lines.take(n as int) =~= lines);
    Ok(edits)
}

proof fn script_error_stays(lines: Seq<Seq<char>>, i: int, k: int)
    requires
        0 <= i <= k <= lines.len(),
        parse_script(lines.take(i)) is Err,
    ensures
        parse_script(lines.take(k)) == parse_script(lines.take(i)),
    decreases k - i,
{
    if i < k {
        script_error_stays(lines, i, k - 1);
        assert(lines.take(k).drop_last() =~= lines.take(k - 1));
    }
}

proof fn edit_at_is(edits: Seq<EditView>, i: int)
    requires
        0 <= i < edits.len(),
        !repeated(edits, edits[i].line()),
    ensures
        edit_at(edits, edits[i].line()) == Some(edits[i]),
{
    let n = edits[i].line();
    let k = choose|k: int| 0 <= k < edits.len() && (#[trigger] edits[k]).line() == n;
    assert(0 <= k < edits.len() && edits[k].line() == n);
    if k < i {
        assert(edits[k].line() == n && edits[i].line() == n);
    } else if i < k {
        assert(edits[i].line() == n && edits[k].line() == n);
    }
}

/// Where the edits stand by the line that they refer to, or the smallest line
/// that two of them refer to.
fn index_by_line(edits: &Vec<Edit>) -> (out: Result<HashMap<usize, usize>, usize>)
    ensures
        match out {
            Ok(index) => {
                &&& forall|n: nat| !#[trigger] repeated(edit_views(edits@), n)
                &&& indexes(index@, edit_views(edits@))
            },
            Err(n) => is_first_conflict(edit_views(edits@), n as nat),
        },
{
    broadcast use vstd::std_specs::hash::group_hash_axioms;

    let ghost all = edit_views(edits@);
    let mut index: HashMap<usize, usize> = HashMap::new();
    let mut conflict: Option<usize> = None;
    let len: usize = edits.len();
    let mut i: usize = 0;
    while i < len
        invariant
            i <= len,
            len == edits@.len(),
            all == edit_views(edits@),
            forall|j: int|
                0 <= j < i ==> index@.contains_key((#[trigger] all[j]).line() as usize),
            forall|n: usize| #[trigger]
                index@.contains_key(n) ==> index@[n] < i && all[index@[n] as int].line() == n,
            forall|n: nat| #[trigger]
                repeated(all.take(i as int), n) ==> conflict is Some && conflict->0 <= n,
            conflict is Some ==> repeated(all.take(i as int), conflict->0 as nat),
        decreases len - i,
    {
        broadcast use vstd::std_specs::hash::group_hash_axioms;

        let n = edits[i].line();
        let ghost now = all.take(i + 1);
        let ghost was = all.take(i as int);
        let ghost old_index = index@;
        let ghost old_conflict = conflict;
        assert(all[i as int] == edits@[i as int]@);
        let again = index.contains_key(&n);
        index.insert(n, i);
        if again {
            let smaller = match conflict {
                None => true,
                Some(m) => n < m,
            };
            if smaller {
                conflict = Some(n);
            }
        }
        proof {
            assert forall|m: nat| #[trigger] repeated(now, m) implies conflict is Some
                && conflict->0 <= m by {
                let (a, b) = choose|a: int, b: int|
                    0 <= a < b < now.len() && (#[trigger] now[a]).line() == m && (
                    #[trigger] now[b]).line() == m;
                assert(now[a] == all[a] && now[b] == all[b]);
                if b < i {
                    assert(was[a].line() == m && was[b].line() == m);
                    assert(repeated(was, m));
                } else {
                    assert(m == n);
                    assert(old_index.contains_key(all[a].line() as usize));
                }
            }
            assert forall|m: nat| repeated(was, m) implies repeated(now, m) by {
                let (a, b) = choose|a: int, b: int|
                    0 <= a < b < was.len() && (#[trigger] was[a]).line() == m && (
                    #[trigger] was[b]).line() == m;
                assert(now[a] == was[a] && now[b] == was[b]);
            }
            if again {
                let a = old_index[n] as int;
                assert(now[a].line() == n && now[i as int].line() == n);
                assert(repeated(now, n as nat));
            }
        }
        i += 1;
    }
    assert(all.take(len as int) =~= all);
    match conflict {
        Some(n) => Err(n),
        None => {
            proof {
                assert forall|j: int| 0 <= j < all.len() implies index@.contains_key(
                    (#[trigger] all[j]).line() as usize,
                ) && index@[all[j].line() as usize] == j by {
                    let n = all[j].line();
                    assert(all[j] == edits@[j]@);
                    let k = index@[n as usize] as int;
                    assert(all[k].line() == n);
                    assert(!repeated(all, n));
                    if k < j {
                        assert(all[k].line() == n && all[j].line() == n);
                    } else if j < k {
                        assert(all[j].line() == n && all[k].line() == n);
                    }
                }
            }
            Ok(index)
        },
    }
}

/// The position of an edit that refers to the highest line.
fn highest_edit(edits: &Vec<Edit>) -> (k: usize)
    requires
        edits@.len() > 0,
    ensures
        k < edits@.len(),
        is_highest(edit_views(edits@), edits@[k as int]@),
{
    let ghost all = edit_views(edits@);
    let len: usize = edits.len();
    let mut k: usize = 0;
    let mut i: usize = 1;
    while i < len
        invariant
            1 <= i <= len,
            len == edits@.len(),
            all == edit_views(edits@),
            k < i,
            forall|j: int| 0 <= j < i ==> (#[trigger] all[j]).line() <= all[k as int].line(),
        decreases len - i,
    {
        assert(all[k as int] == edits@[k as int]@);
        assert(all[i as int] == edits@[i as int]@);
        if edits[i].line() > edits[k].line() {
            k = i;
        }
        i += 1;
    }
    assert(all[k as int] == edits@[k as int]@);
    k
}

/// The lines of `original`, as `lines_of` numbers them, and whether it ends with
/// a newline.
fn read_lines(original: &str) -> (out: (Vec<Vec<char>>, bool))
    ensures
        out.0@.map_values(|p: Vec<char>| p@) == lines_of(original@),
        out.1 == ends_with_newline(original@),
{
    let chars = text::chars_of(original);
    let mut lines = text::split_chars(chars.as_slice(), '\n');
    let n: usize = chars.len();
    let newline = n > 0 && chars[n - 1] == '\n';
    if newline {
        let ghost before = lines@;
        proof {
            text::split_join(original@, '\n');
        }
        lines.pop();
        assert(lines@.map_values(|p: Vec<char>| p@) =~= before.map_values(
            |p: Vec<char>| p@,
        ).drop_last());
    }
    (lines, newline)
}

/// The error that refuses an edit when there are `len` lines.
fn refuse(e: &Edit, len: usize) -> (err: ProtocolError)
    ensures
        err.says(ErrorCode::PatchFailed, out_of_range(e@, len as nat)),
{
    let place = text::decimal_u64(e.line() as u64);
    let count = text::decimal_u64(len as u64);
    let mut message = text::concat3(e.word(), " position ", place.as_str());
    message.append(" out of range (len ");
    message.append(count.as_str());
    message.append(")");
    ProtocolError::new(ErrorCode::PatchFailed, message.as_str())
}

proof fn first_conflict_unique(edits: Seq<EditView>, n: nat)
    requires
        is_first_conflict(edits, n),
    ensures
        n == choose|m: nat| is_first_conflict(edits, m),
{
    let m = choose|m: nat| is_first_conflict(edits, m);
    assert(is_first_conflict(edits, m));
    if m < n {
        assert(!repeated(edits, m));
    } else if n < m {
        assert(!repeated(edits, n));
    }
}

proof fn highest_unique(edits: Seq<EditView>, e: EditView)
    requires
        is_highest(edits, e),
        forall|m: nat| !#[trigger] repeated(edits, m),
    ensures
        e == choose|f: EditView| is_highest(edits, f),
{
    let f = choose|f: EditView| is_highest(edits, f);
    assert(is_highest(edits, f));
    let i = choose|i: int| 0 <= i < edits.len() && edits[i] == e;
    let j = choose|j: int| 0 <= j < edits.len() && edits[j] == f;
    assert(edits[i].line() == edits[j].line());
    assert(!repeated(edits, e.line()));
}

/// The position of the edit that refers to line zero.
fn edit_on_top(edits: &Vec<Edit>, index: &HashMap<usize, usize>) -> (out: Option<usize>)
    requires
        indexes(index@, edit_views(edits@)),
        forall|m: nat| !#[trigger] repeated(edit_views(edits@), m),
    ensures
        match out {
            Some(k) => k < edits@.len() && edit_at(edit_views(edits@), 0) == Some(
                edits@[k as int]@,
            ),
            None => edit_at(edit_views(edits@), 0) is None,
        },
{
    broadcast use vstd::std_specs::hash::group_hash_axioms;

    let ghost all = edit_views(edits@);
    match index.get(&0) {
        Some(k) => {
            proof {
                assert(index@.contains_key(0));
                assert(all[*k as int] == edits@[*k as int]@);
                assert(!repeated(all, all[*k as int].line()));
                edit_at_is(all, *k as int);
            }
            Some(*k)
        },
        None => {
            assert(!targeted(all, 0)) by {
                if targeted(all, 0) {
                    let i = choose|i: int| 0 <= i < all.len() && (#[trigger] all[i]).line() == 0;
                    assert(index@.contains_key(all[i].line() as usize));
                }
            }
            None
        },
    }
}

/// What the edits put above the first line, pushed onto an empty `out`.
fn push_top(out: &mut Vec<String>, edits: &Vec<Edit>, index: &HashMap<usize, usize>)
    requires
        old(out)@.len() == 0,
        indexes(index@, edit_views(edits@)),
        forall|m: nat| !#[trigger] repeated(edit_views(edits@), m),
    ensures
        text::views(final(out)@) == top_block(edit_views(edits@)),
{
    let ghost all = edit_views(edits@);
    if let Some(k) = edit_on_top(edits, index) {
        if let Edit::Append(_, t) = &edits[k] {
            out.push(t.clone());
        }
    }
    assert(text::views(out@) =~= top_block(all));
}

/// What the edits put in place of the `n`th line, pushed onto `out`.
fn push_line(
    out: &mut Vec<String>,
    lines: &Vec<Vec<char>>,
    n: usize,
    edits: &Vec<Edit>,
    index: &HashMap<usize, usize>,
)
    requires
        1 <= n <= lines@.len(),
        indexes(index@, edit_views(edits@)),
        forall|m: nat| !#[trigger] repeated(edit_views(edits@), m),
    ensures
        text::views(final(out)@) == text::views(old(out)@) + line_block(
            lines@.map_values(|p: Vec<char>| p@),
            edit_views(edits@),
            n as nat,
        ),
{
    broadcast use vstd::std_specs::hash::group_hash_axioms;

    let ghost all = edit_views(edits@);
    let ghost before = text::views(out@);
    let ghost shown = lines@.map_values(|p: Vec<char>| p@);
    let line = text::string_of(lines[n - 1].as_slice());
    assert(line@ == shown[n - 1]);
    match index.get(&n) {
        Some(k) => {
            let k: usize = *k;
            proof {
                assert(index@.contains_key(n));
                assert(all[k as int] == edits@[k as int]@);
                assert(!repeated(all, all[k as int].line()));
                edit_at_is(all, k as int);
            }
            match &edits[k] {
                Edit::Append(_, t) => {
                    out.push(line);
                    out.push(t.clone());
                },
                Edit::Delete(_) => {},
                Edit::Change(_, t) => {
                    out.push(t.clone());
                },
            }
        },
        None => {
            assert(!targeted(all, n as nat)) by {
                if targeted(all, n as nat) {
                    let i = choose|i: int| 0 <= i < all.len() && (#[trigger] all[i]).line() == n;
                    assert(index@.contains_key(all[i].line() as usize));
                }
            }
            out.push(line);
        },
    }
    assert(text::views(out@) =~= before + line_block(shown, all, n as nat));
}

/// Applies the edit script `patch` to `original`.
pub fn apply_patch(original: &str, patch: &str) -> (out: Result<String, ProtocolError>)
    ensures
        match out {
            Ok(text) => patched(original@, patch@) == Ok::<Seq<char>, Seq<char>>(text@),
            Err(e) => patched(original@, patch@) is Err && e.says(
                ErrorCode::PatchFailed,
                patched(original@, patch@)->Err_0,
            ),
        },
{
    let edits = match read_script(patch) {
        Ok(edits) => edits,
        Err(m) => {
            return Err(ProtocolError::new(ErrorCode::PatchFailed, m.as_str()));
        },
    };
    let ghost all = edit_views(edits@);
    let index = match index_by_line(&edits) {
        Ok(index) => index,
        Err(n) => {
            proof {
                first_conflict_unique(all, n as nat);
            }
            let place = text::decimal_u64(n as u64);
            let m = text::concat("conflicting edits at line ", place.as_str());
            return Err(ProtocolError::new(ErrorCode::PatchFailed, m.as_str()));
        },
    };
    let (lines, newline) = read_lines(original);
    let ghost shown = lines_of(original@);
    let len: usize = lines.len();
    assert(shown.len() == len);
    if edits.len() > 0 {
        let k = highest_edit(&edits);
        assert(all[k as int] == edits@[k as int]@);
        if edits[k].line() > len {
            proof {
                assert(targeted(all, all[k as int].line()));
                highest_unique(all, all[k as int]);
            }
            return Err(refuse(&edits[k], len));
        }
    }
    assert forall|n: nat| n > len implies !targeted(all, n) by {
        if targeted(all, n) {
            let i = choose|i: int| 0 <= i < all.len() && (#[trigger] all[i]).line() == n;
            assert(all[i].line() == n);
        }
    }
    let mut out: Vec<String> = Vec::new();
    push_top(&mut out, &edits, &index);
    let mut n: usize = 0;
    while n < len
        invariant
            n <= len,
            len == lines@.len(),
            shown == lines@.map_values(|p: Vec<char>| p@),
            all == edit_views(edits@),
            indexes(index@, all),
            forall|m: nat| !#[trigger] repeated(all, m),
            text::views(out@) == edited(shown, all, n as nat),
        decreases len - n,
    {
        n += 1;
        push_line(&mut out, &lines, n, &edits, &index);
    }
    let count: usize = out.len();
    assert(text::views(out@).len() == count);
    match edit_on_top(&edits, &index) {
        Some(k) => {
            match &edits[k] {
                Edit::Append(_, _) => {},
                _ => {
                    return Err(refuse(&edits[k], count));
                },
            }
        },
        None => {},
    }
    let mut result = text::join_strings(&out, "\n");
    proof {
        reveal_strlit("\n");
        assert("\n"@ =~= seq!['\n']);
    }
    if newline {
        result.push('\n');
    }
    Ok(result)
}

proof fn edited_by_nothing(lines: Seq<Seq<char>>, n: nat)
    requires
        n <= lines.len(),
    ensures
        edited(lines, Seq::<EditView>::empty(), n) == lines.take(n as int),
    decreases n,
{
    let none = Seq::<EditView>::empty();
    assert(!targeted(none, n));
    if n == 0 {
        assert(edited(lines, none, 0) =~= lines.take(0));
    } else {
        edited_by_nothing(lines, (n - 1) as nat);
        assert(edited(lines, none, n) =~= lines.take(n as int));
    }
}

proof fn skipped_script(lines: Seq<Seq<char>>)
    requires
        forall|i: int| 0 <= i < lines.len() ==> parse_line(#[trigger] lines[i]) is Skip,
    ensures
        parse_script(lines) == Ok::<Seq<EditView>, Seq<char>>(Seq::<EditView>::empty()),
    decreases lines.len(),
{
    if lines.len() > 0 {
        let front = lines.drop_last();
        assert forall|i: int| 0 <= i < front.len() implies parse_line(
            #[trigger] front[i],
        ) is Skip by {
            assert(front[i] == lines[i]);
        }
        skipped_script(front);
        assert(parse_line(lines[lines.len() - 1]) is Skip);
    }
}

/// A text is what its lines make up, with the newline at the end where it has
/// one.
pub proof fn lines_make_up_text(s: Seq<char>)
    ensures
        text_of(lines_of(s), ends_with_newline(s)) == s,
{
    text::split_join(s, '\n');
    if ends_with_newline(s) {
        text::split_join(s.drop_last(), '\n');
        assert(text::split(s, '\n').drop_last() =~= text::split(s.drop_last(), '\n'));
        assert(s.drop_last().push('\n') =~= s);
    }
}

/// A script of nothing but blank lines and comments, the empty script among
/// them, leaves every text as it is.
pub proof fn script_without_edits_is_identity(original: Seq<char>, patch: Seq<char>)
    requires
        forall|i: int|
            0 <= i < text::split(patch, '\n').len() ==> (#[trigger] text::split(
                patch,
                '\n',
            )[i]).len() == 0 || text::split(patch, '\n')[i][0] == '#',
    ensures
        patched(original, patch) == Ok::<Seq<char>, Seq<char>>(original),
{
    let script = text::split(patch, '\n');
    let lines = lines_of(original);
    let none = Seq::<EditView>::empty();
    assert forall|i: int| 0 <= i < script.len() implies parse_line(#[trigger] script[i]) is Skip by {
    }
    skipped_script(script);
    edited_by_nothing(lines, lines.len());
    assert(lines.take(lines.len() as int) =~= lines);
    lines_make_up_text(original);
    assert(!targeted(none, 0));
    assert forall|n: nat| !repeated(none, n) by {}
    assert forall|n: nat| !targeted(none, n) by {}
}

proof fn skip_line_dropped(front: Seq<Seq<char>>, skip: Seq<char>, back: Seq<Seq<char>>)
    requires
        parse_line(skip) is Skip,
    ensures
        parse_script(front.push(skip) + back) == parse_script(front + back),
    decreases back.len(),
{
    let long = front.push(skip) + back;
    let short = front + back;
    if back.len() == 0 {
        assert(long =~= front.push(skip));
        assert(short =~= front);
        assert(long.drop_last() =~= front);
    } else {
        skip_line_dropped(front, skip, back.drop_last());
        assert(long.drop_last() =~= front.push(skip) + back.drop_last());
        assert(short.drop_last() =~= front + back.drop_last());
    }
}

/// A blank line or a comment between the other lines of a script makes no
/// difference.
pub proof fn blank_and_comment_lines_ignored(
    original: Seq<char>,
    front: Seq<Seq<char>>,
    skip: Seq<char>,
    back: Seq<Seq<char>>,
)
    requires
        skip.len() == 0 || skip[0] == '#',
        front.len() + back.len() > 0,
        !skip.contains('\n'),
        forall|i: int| 0 <= i < front.len() ==> !(#[trigger] front[i]).contains('\n'),
        forall|i: int| 0 <= i < back.len() ==> !(#[trigger] back[i]).contains('\n'),
    ensures
        patched(original, text::join(front.push(skip) + back, seq!['\n'])) == patched(
            original,
            text::join(front + back, seq!['\n']),
        ),
{
    text::join_split(front.push(skip) + back, '\n');
    text::join_split(front + back, '\n');
    skip_line_dropped(front, skip, back);
}

/// Edits that refer to the same line are refused, whatever the text.
pub proof fn conflicting_edits_refused(original: Seq<char>, edits: Seq<EditView>, n: nat)
    requires
        repeated(edits, n),
    ensures
        apply_edits(original, edits) is Err,
{
}

/// An edit that refers to a line past the end is refused, whatever else the
/// script holds.
pub proof fn edits_past_the_end_refused(original: Seq<char>, edits: Seq<EditView>, i: int)
    requires
        0 <= i < edits.len(),
        edits[i].line() > lines_of(original).len(),
    ensures
        apply_edits(original, edits) is Err,
{
    assert(targeted(edits, edits[i].line()));
}

/// `edits` with those at positions `i` and `j` in each other's place.
pub open spec fn swapped(edits: Seq<EditView>, i: int, j: int) -> Seq<EditView> {
    edits.update(i, edits[j]).update(j, edits[i])
}

spec fn swap_position(k: int, i: int, j: int) -> int {
    if k == i {
        j
    } else if k == j {
        i
    } else {
        k
    }
}

proof fn swap_keeps_facts(edits: Seq<EditView>, i: int, j: int)
    requires
        0 <= i < edits.len(),
        0 <= j < edits.len(),
    ensures
        forall|n: nat| #[trigger] targeted(edits, n) ==> targeted(swapped(edits, i, j), n),
        forall|n: nat| #[trigger] repeated(edits, n) ==> repeated(swapped(edits, i, j), n),
        forall|e: EditView| #[trigger]
            is_highest(edits, e) ==> is_highest(swapped(edits, i, j), e),
{
    let other = swapped(edits, i, j);
    assert forall|k: int| 0 <= k < edits.len() implies #[trigger] edits[k] == other[swap_position(
        k,
        i,
        j,
    )] by {}
    assert forall|k: int| 0 <= k < edits.len() implies #[trigger] other[k] == edits[swap_position(
        k,
        i,
        j,
    )] by {}
    assert forall|n: nat| #[trigger] targeted(edits, n) implies targeted(other, n) by {
        let k = choose|k: int| 0 <= k < edits.len() && (#[trigger] edits[k]).line() == n;
        assert(other[swap_position(k, i, j)].line() == n);
    }
    assert forall|n: nat| #[trigger] repeated(edits, n) implies repeated(other, n) by {
        let (a, b) = choose|a: int, b: int|
            0 <= a < b < edits.len() && (#[trigger] edits[a]).line() == n && (
            #[trigger] edits[b]).line() == n;
        let c = swap_position(a, i, j);
        let d = swap_position(b, i, j);
        assert(other[c].line() == n && other[d].line() == n);
        if c < d {
        } else {
            assert(d < c);
        }
    }
    assert forall|e: EditView| #[trigger] is_highest(edits, e) implies is_highest(other, e) by {
        let k = choose|k: int| 0 <= k < edits.len() && edits[k] == e;
        assert(other[swap_position(k, i, j)] == e);
    }
}

proof fn swap_keeps_edited(lines: Seq<Seq<char>>, edits: Seq<EditView>, i: int, j: int, n: nat)
    requires
        0 <= i < edits.len(),
        0 <= j < edits.len(),
        forall|m: nat| !#[trigger] repeated(edits, m),
    ensures
        edit_at(swapped(edits, i, j), n) == edit_at(edits, n),
        edited(lines, swapped(edits, i, j), n) == edited(lines, edits, n),
    decreases n,
{
    let other = swapped(edits, i, j);
    swap_keeps_facts(edits, i, j);
    swap_keeps_facts(other, i, j);
    assert(swapped(other, i, j) =~= edits);
    assert(targeted(edits, n) == targeted(other, n));
    if targeted(edits, n) {
        let k = choose|k: int| 0 <= k < edits.len() && (#[trigger] edits[k]).line() == n;
        let c = swap_position(k, i, j);
        assert(other[c] == edits[k]);
        assert(!repeated(edits, n));
        assert(!repeated(other, n));
        edit_at_is(edits, k);
        edit_at_is(other, c);
    }
    if n > 0 {
        swap_keeps_edited(lines, edits, i, j, (n - 1) as nat);
    }
}

/// The order of the edits in a script makes no difference: with any two of them
/// in each other's place the outcome is the same, the error's message included.
pub proof fn order_of_edits_is_irrelevant(
    original: Seq<char>,
    edits: Seq<EditView>,
    i: int,
    j: int,
)
    requires
        0 <= i < edits.len(),
        0 <= j < edits.len(),
    ensures
        apply_edits(original, swapped(edits, i, j)) == apply_edits(original, edits),
{
    let other = swapped(edits, i, j);
    let lines = lines_of(original);
    swap_keeps_facts(edits, i, j);
    swap_keeps_facts(other, i, j);
    assert(swapped(other, i, j) =~= edits);
    assert forall|n: nat| repeated(edits, n) == repeated(other, n) by {}
    if exists|n: nat| repeated(edits, n) {
        let n = choose|n: nat| repeated(edits, n);
        assert(repeated(other, n));
        least_repeated(edits, n);
        let m = choose|m: nat| is_first_conflict(edits, m);
        assert(is_first_conflict(edits, m));
        assert(is_first_conflict(other, m));
        first_conflict_unique(other, m);
    } else {
        assert forall|n: nat| !repeated(other, n) by {}
        swap_keeps_edited(lines, edits, i, j, lines.len());
        swap_keeps_edited(lines, edits, i, j, 0);
        assert forall|n: nat| targeted(edits, n) == targeted(other, n) by {}
        if exists|n: nat| n > lines.len() && targeted(edits, n) {
            let n = choose|n: nat| n > lines.len() && targeted(edits, n);
            assert(targeted(other, n));
            some_highest(edits);
            let e = choose|e: EditView| is_highest(edits, e);
            assert(is_highest(edits, e));
            assert(is_highest(other, e));
            highest_unique(edits, e);
            highest_unique(other, e);
        } else {
            assert forall|n: nat| n > lines.len() implies !targeted(other, n) by {}
        }
    }
}

/// The edits of a script with two neighbouring lines in each other's place are the
/// same, but for the edits of these lines.
proof fn swapped_lines(
    front: Seq<Seq<char>>,
    a: Seq<char>,
    b: Seq<char>,
    back: Seq<Seq<char>>,
) -> (k: int)
    requires
        parse_script(front.push(a).push(b) + back) is Ok,
    ensures
        ({
            let edits = parse_script(front.push(a).push(b) + back)->Ok_0;
            let others = parse_script(front.push(b).push(a) + back);
            ||| others == Ok::<Seq<EditView>, Seq<char>>(edits)
            ||| 0 <= k < edits.len() - 1 && others == Ok::<Seq<EditView>, Seq<char>>(
                swapped(edits, k, k + 1),
            )
        }),
    decreases back.len(),
{
    let one = front.push(a).push(b) + back;
    let two = front.push(b).push(a) + back;
    if back.len() > 0 {
        assert(one.drop_last() =~= front.push(a).push(b) + back.drop_last());
        assert(two.drop_last() =~= front.push(b).push(a) + back.drop_last());
        let k = swapped_lines(front, a, b, back.drop_last());
        assert(one.last() == back.last() && two.last() == back.last());
        let edits = parse_script(one.drop_last())->Ok_0;
        if parse_line(back.last()) is Edit && 0 <= k < edits.len() - 1 {
            let e = parse_line(back.last())->Edit_0;
            assert(swapped(edits, k, k + 1).push(e) =~= swapped(edits.push(e), k, k + 1));
        }
        k
    } else {
        reveal_with_fuel(parse_script, 3);
        assert(one =~= front.push(a).push(b));
        assert(two =~= front.push(b).push(a));
        assert(one.drop_last() =~= front.push(a));
        assert(two.drop_last() =~= front.push(b));
        assert(front.push(a).drop_last() =~= front);
        assert(front.push(b).drop_last() =~= front);
        let edits = parse_script(front)->Ok_0;
        if parse_line(a) is Edit && parse_line(b) is Edit {
            let x = parse_line(a)->Edit_0;
            let y = parse_line(b)->Edit_0;
            let k = edits.len() as int;
            assert(edits.push(y).push(x) =~= swapped(edits.push(x).push(y), k, k + 1));
        }
        edits.len() as int
    }
}

/// The order of the lines of a script makes no difference where each of them is
/// well formed: with two neighbouring lines in each other's place, and so in any
/// order, the outcome is the same.
pub proof fn order_of_lines_is_irrelevant(
    original: Seq<char>,
    front: Seq<Seq<char>>,
    a: Seq<char>,
    b: Seq<char>,
    back: Seq<Seq<char>>,
)
    requires
        !a.contains('\n'),
        !b.contains('\n'),
        forall|i: int| 0 <= i < front.len() ==> !(#[trigger] front[i]).contains('\n'),
        forall|i: int| 0 <= i < back.len() ==> !(#[trigger] back[i]).contains('\n'),
        parse_script(front.push(a).push(b) + back) is Ok,
    ensures
        patched(original, text::join(front.push(b).push(a) + back, seq!['\n'])) == patched(
            original,
            text::join(front.push(a).push(b) + back, seq!['\n']),
        ),
{
    text::join_split(front.push(a).push(b) + back, '\n');
    text::join_split(front.push(b).push(a) + back, '\n');
    let k = swapped_lines(front, a, b, back);
    let edits = parse_script(front.push(a).push(b) + back)->Ok_0;
    if 0 <= k < edits.len() - 1 {
        order_of_edits_is_irrelevant(original, edits, k, k + 1);
    }
}

proof fn least_repeated(edits: Seq<EditView>, n: nat)
    requires
        repeated(edits, n),
    ensures
        exists|m: nat| is_first_conflict(edits, m),
    decreases n,
{
    if exists|m: nat| m < n && repeated(edits, m) {
        let m = choose|m: nat| m < n && repeated(edits, m);
        least_repeated(edits, m);
    } else {
        assert(is_first_conflict(edits, n));
    }
}

proof fn some_highest(edits: Seq<EditView>)
    requires
        edits.len() > 0,
    ensures
        exists|e: EditView| is_highest(edits, e),
    decreases edits.len(),
{
    if edits.len() == 1 {
        assert(edits.contains(edits[0]));
        assert(is_highest(edits, edits[0]));
    } else {
        let front = edits.drop_last();
        some_highest(front);
        let e = choose|e: EditView| is_highest(front, e);
        assert(is_highest(front, e));
        let k = choose|k: int| 0 <= k < front.len() && front[k] == e;
        assert(edits[k] == e);
        assert forall|i: int| 0 <= i < front.len() implies (#[trigger] edits[i]).line()
            <= e.line() by {
            assert(edits[i] == front[i]);
        }
        let last = edits[edits.len() - 1];
        assert(edits.contains(last));
        if last.line() >= e.line() {
            assert(is_highest(edits, last));
        } else {
            assert(is_highest(edits, e));
        }
    }
}

spec fn blocks_of(lines: Seq<Seq<char>>, edits: Seq<EditView>, n: nat) -> Seq<Seq<Seq<char>>> {
    Seq::new(
        n + 1,
        |k: int|
            if k == 0 {
                top_block(edits)
            } else {
                line_block(lines, edits, k as nat)
            },
    )
}

proof fn edited_is_blocks(lines: Seq<Seq<char>>, edits: Seq<EditView>, n: nat)
    requires
        n <= lines.len(),
    ensures
        edited(lines, edits, n) == blocks_of(lines, edits, n).flatten(),
    decreases n,
{
    let blocks = blocks_of(lines, edits, n);
    if n == 0 {
        blocks.lemma_flatten_one_element();
        assert(blocks.first() == top_block(edits));
    } else {
        let front = blocks_of(lines, edits, (n - 1) as nat);
        edited_is_blocks(lines, edits, (n - 1) as nat);
        front.lemma_flatten_push(line_block(lines, edits, n));
        assert(blocks =~= front.push(line_block(lines, edits, n)));
    }
}

/// The lines of a text hold no newline, there is at least one of them, and the
/// text is they with a newline between each two, and one more behind the last
/// where the text ends with one.
pub proof fn lines_are_between_newlines(original: Seq<char>)
    ensures
        lines_of(original).len() > 0,
        forall|i: int|
            0 <= i < lines_of(original).len() ==> !(#[trigger] lines_of(original)[i]).contains(
                '\n',
            ),
        original.len() > 0 && original.last() == '\n' ==> original == text::join(
            lines_of(original),
            seq!['\n'],
        ).push('\n'),
        original.len() == 0 || original.last() != '\n' ==> original == text::join(
            lines_of(original),
            seq!['\n'],
        ),
{
    lines_make_up_text(original);
    text::split_join(original, '\n');
    if ends_with_newline(original) {
        text::split_join(original.drop_last(), '\n');
        assert(text::split(original, '\n').drop_last() =~= text::split(
            original.drop_last(),
            '\n',
        ));
    }
}

/// Under edits that are accepted every line of the text becomes what its own edit
/// says, whatever edits the other lines have: a line that is deleted is gone, one
/// that is changed is replaced by its text, one that is appended to is followed by
/// its text, and every other line stays. What is appended to line zero stands on
/// top. The new text is what these blocks make up, in the order of the lines, and
/// ends with a newline where the old one does.
pub proof fn each_line_follows_its_own_edit(
    original: Seq<char>,
    edits: Seq<EditView>,
    out: Seq<char>,
) -> (blocks: Seq<Seq<Seq<char>>>)
    requires
        apply_edits(original, edits) == Ok::<Seq<char>, Seq<char>>(out),
    ensures
        blocks.len() == lines_of(original).len() + 1,
        original.len() > 0 && original.last() == '\n' ==> out == text::join(
            blocks.flatten(),
            seq!['\n'],
        ).push('\n'),
        original.len() == 0 || original.last() != '\n' ==> out == text::join(
            blocks.flatten(),
            seq!['\n'],
        ),
        forall|i: int|
            0 <= i < edits.len() ==> match #[trigger] edits[i] {
                EditView::Append { line, text } => line < blocks.len() && blocks[line as int] == (
                if line == 0 {
                    seq![text]
                } else {
                    seq![lines_of(original)[line - 1], text]
                }),
                EditView::Delete { line } => 0 < line < blocks.len() && blocks[line as int].len()
                    == 0,
                EditView::Change { line, text } => 0 < line < blocks.len()
                    && blocks[line as int] == seq![text],
            },
        forall|n: int|
            0 <= n < blocks.len() && (forall|i: int|
                0 <= i < edits.len() ==> match #[trigger] edits[i] {
                    EditView::Append { line, .. } => line != n,
                    EditView::Delete { line } => line != n,
                    EditView::Change { line, .. } => line != n,
                }) ==> #[trigger] blocks[n] == (if n == 0 {
                Seq::<Seq<char>>::empty()
            } else {
                seq![lines_of(original)[n - 1]]
            }),
        blocks.flatten().len() == lines_of(original).len() + edits.filter(
            |e: EditView| e is Append,
        ).len() - edits.filter(|e: EditView| e is Delete).len(),
{
    let lines = lines_of(original);
    let blocks = blocks_of(lines, edits, lines.len());
    edited_is_blocks(lines, edits, lines.len());
    assert forall|i: int| 0 <= i < edits.len() implies (#[trigger] edits[i]).line() <= lines.len()
        && edit_at(edits, edits[i].line()) == Some(edits[i]) by {
        let n = edits[i].line();
        assert(!repeated(edits, n));
        edit_at_is(edits, i);
        assert(targeted(edits, n));
        if n > lines.len() {
            assert(n > lines.len() && targeted(edits, n));
        }
    }
    assert forall|i: int| 0 <= i < edits.len() implies match #[trigger] edits[i] {
        EditView::Append { line, text } => line < blocks.len() && blocks[line as int] == (
        if line == 0 {
            seq![text]
        } else {
            seq![lines_of(original)[line - 1], text]
        }),
        EditView::Delete { line } => 0 < line < blocks.len() && blocks[line as int].len() == 0,
        EditView::Change { line, text } => 0 < line < blocks.len() && blocks[line as int]
            == seq![text],
    } by {
        assert(edit_at(edits, edits[i].line()) == Some(edits[i]));
    }
    assert forall|n: int|
        0 <= n < blocks.len() && (forall|i: int|
            0 <= i < edits.len() ==> match #[trigger] edits[i] {
                EditView::Append { line, .. } => line != n,
                EditView::Delete { line } => line != n,
                EditView::Change { line, .. } => line != n,
            }) implies #[trigger] blocks[n] == (if n == 0 {
        Seq::<Seq<char>>::empty()
    } else {
        seq![lines_of(original)[n - 1]]
    }) by {
        assert(!targeted(edits, n as nat));
    }
    assert forall|i: int, j: int| 0 <= i < j < edits.len() implies (#[trigger] edits[i]).line() != (
    #[trigger] edits[j]).line() by {
        assert(!repeated(edits, edits[i].line()));
    }
    assert forall|i: int| 0 <= i < edits.len() && (#[trigger] edits[i]).line() == 0 implies edits[i] is Append by {
        assert(edit_at(edits, edits[i].line()) == Some(edits[i]));
    }
    lines_are_counted(lines, edits);
    blocks
}

proof fn no_edits_repeat(edits: Seq<EditView>, n: nat)
    requires
        forall|i: int, j: int|
            0 <= i < j < edits.len() ==> (#[trigger] edits[i]).line() != (
            #[trigger] edits[j]).line(),
    ensures
        !repeated(edits, n),
{
}

proof fn last_edit_counts(lines: Seq<Seq<char>>, edits: Seq<EditView>, n: nat)
    requires
        edits.len() > 0,
        forall|i: int, j: int|
            0 <= i < j < edits.len() ==> (#[trigger] edits[i]).line() != (
            #[trigger] edits[j]).line(),
        edits.last().line() == 0 ==> edits.last() is Append,
    ensures
        edited(lines, edits, n).len() == edited(lines, edits.drop_last(), n).len() + (
        if edits.last().line() > n {
            0int
        } else {
            match edits.last() {
                EditView::Append { .. } => 1,
                EditView::Delete { .. } => -1,
                EditView::Change { .. } => 0,
            }
        }),
    decreases n,
{
    let front = edits.drop_last();
    let last = edits.last();
    assert(edits[edits.len() - 1] == last);
    assert forall|i: int, j: int| 0 <= i < j < front.len() implies (#[trigger] front[i]).line() != (
    #[trigger] front[j]).line() by {
        assert(edits[i] == front[i] && edits[j] == front[j]);
    }
    no_edits_repeat(front, n);
    no_edits_repeat(edits, n);
    if last.line() == n {
        edit_at_is(edits, edits.len() - 1);
        if targeted(front, n) {
            let k = choose|k: int| 0 <= k < front.len() && (#[trigger] front[k]).line() == n;
            assert(edits[k] == front[k]);
        }
        assert(edit_at(front, n) is None);
    } else if targeted(edits, n) {
        let k = choose|k: int| 0 <= k < edits.len() && (#[trigger] edits[k]).line() == n;
        assert(front[k] == edits[k]);
        edit_at_is(edits, k);
        edit_at_is(front, k);
    } else {
        if targeted(front, n) {
            let k = choose|k: int| 0 <= k < front.len() && (#[trigger] front[k]).line() == n;
            assert(edits[k] == front[k]);
        }
    }
    if n > 0 {
        last_edit_counts(lines, edits, (n - 1) as nat);
    }
}

proof fn lines_are_counted(lines: Seq<Seq<char>>, edits: Seq<EditView>)
    requires
        forall|i: int, j: int|
            0 <= i < j < edits.len() ==> (#[trigger] edits[i]).line() != (
            #[trigger] edits[j]).line(),
        forall|i: int|
            0 <= i < edits.len() && (#[trigger] edits[i]).line() == 0 ==> edits[i] is Append,
        forall|i: int| 0 <= i < edits.len() ==> (#[trigger] edits[i]).line() <= lines.len(),
    ensures
        edited(lines, edits, lines.len()).len() == lines.len() + edits.filter(
            |e: EditView| e is Append,
        ).len() - edits.filter(|e: EditView| e is Delete).len(),
    decreases edits.len(),
{
    reveal(Seq::filter);
    if edits.len() == 0 {
        assert(edits =~= Seq::<EditView>::empty());
        edited_by_nothing(lines, lines.len());
    } else {
        let front = edits.drop_last();
        assert forall|i: int, j: int| 0 <= i < j < front.len() implies (
        #[trigger] front[i]).line() != (#[trigger] front[j]).line() by {
            assert(edits[i] == front[i] && edits[j] == front[j]);
        }
        assert forall|i: int| 0 <= i < front.len() implies (#[trigger] front[i]).line()
            <= lines.len() && (front[i].line() == 0 ==> front[i] is Append) by {
            assert(edits[i] == front[i]);
        }
        lines_are_counted(lines, front);
        assert(edits[edits.len() - 1] == edits.last());
        last_edit_counts(lines, edits, lines.len());
    }
}

/// Edits are accepted exactly where no two refer to the same line, none refers to
/// a line past the last, and line zero is only appended to.
pub proof fn edits_are_accepted_where_they_fit(original: Seq<char>, edits: Seq<EditView>)
    ensures
        apply_edits(original, edits) is Ok <==> {
            &&& forall|i: int, j: int|
                0 <= i < j < edits.len() ==> (#[trigger] edits[i]).line() != (
                #[trigger] edits[j]).line()
            &&& forall|i: int|
                0 <= i < edits.len() ==> match #[trigger] edits[i] {
                    EditView::Append { line, .. } => line <= lines_of(original).len(),
                    EditView::Delete { line } => 0 < line <= lines_of(original).len(),
                    EditView::Change { line, .. } => 0 < line <= lines_of(original).len(),
                }
        },
        forall|n: nat|
            (exists|i: int, j: int|
                0 <= i < j < edits.len() && (#[trigger] edits[i]).line() == n && (
                #[trigger] edits[j]).line() == n) && (forall|i: int, j: int|
                0 <= i < j < edits.len() && (#[trigger] edits[i]).line() == (
                #[trigger] edits[j]).line() ==> edits[i].line() >= n) ==> apply_edits(
                original,
                edits,
            ) == Err::<Seq<char>, Seq<char>>(
                "conflicting edits at line "@ + #[trigger] text::decimal(n),
            ),
{
    let lines = lines_of(original);
    let distinct = forall|i: int, j: int|
        0 <= i < j < edits.len() ==> (#[trigger] edits[i]).line() != (#[trigger] edits[j]).line();
    let fit = forall|i: int|
        0 <= i < edits.len() ==> match #[trigger] edits[i] {
            EditView::Append { line, .. } => line <= lines.len(),
            EditView::Delete { line } => 0 < line <= lines.len(),
            EditView::Change { line, .. } => 0 < line <= lines.len(),
        };
    if apply_edits(original, edits) is Ok {
        assert forall|i: int, j: int| 0 <= i < j < edits.len() implies (
        #[trigger] edits[i]).line() != (#[trigger] edits[j]).line() by {
            assert(!repeated(edits, edits[i].line()));
        }
        assert forall|i: int| 0 <= i < edits.len() implies match #[trigger] edits[i] {
            EditView::Append { line, .. } => line <= lines.len(),
            EditView::Delete { line } => 0 < line <= lines.len(),
            EditView::Change { line, .. } => 0 < line <= lines.len(),
        } by {
            let n = edits[i].line();
            assert(!repeated(edits, n));
            edit_at_is(edits, i);
            assert(targeted(edits, n));
        }
    }
    if distinct && fit {
        assert forall|n: nat| !repeated(edits, n) by {
            no_edits_repeat(edits, n);
        }
        assert forall|n: nat| n > lines.len() implies !targeted(edits, n) by {}
        if targeted(edits, 0) {
            let k = choose|k: int| 0 <= k < edits.len() && (#[trigger] edits[k]).line() == 0;
            edit_at_is(edits, k);
            assert(edits[k] is Append);
        }
    }
    assert forall|n: nat|
        (exists|i: int, j: int|
            0 <= i < j < edits.len() && (#[trigger] edits[i]).line() == n && (
            #[trigger] edits[j]).line() == n) && (forall|i: int, j: int|
            0 <= i < j < edits.len() && (#[trigger] edits[i]).line() == (
            #[trigger] edits[j]).line() ==> edits[i].line() >= n) implies apply_edits(
        original,
        edits,
    ) == Err::<Seq<char>, Seq<char>>(
        "conflicting edits at line "@ + #[trigger] text::decimal(n),
    ) by {
        assert(repeated(edits, n));
        assert forall|m: nat| m < n implies !#[trigger] repeated(edits, m) by {
            if repeated(edits, m) {
                let (i, j) = choose|i: int, j: int|
                    0 <= i < j < edits.len() && (#[trigger] edits[i]).line() == m && (
                    #[trigger] edits[j]).line() == m;
                assert(edits[i].line() == edits[j].line());
            }
        }
        first_conflict_unique(edits, n);
    }
}

proof fn digits_are_run(digits: Seq<char>, rest: Seq<char>)
    requires
        forall|i: int| 0 <= i < digits.len() ==> '0' <= #[trigger] digits[i] <= '9',
        rest.len() > 0 ==> rest[0] < '0' || rest[0] > '9',
    ensures
        digit_run(digits + rest) == digits.len(),
    decreases digits.len(),
{
    if digits.len() > 0 {
        assert forall|i: int| 0 <= i < digits.drop_first().len() implies '0'
            <= #[trigger] digits.drop_first()[i] <= '9' by {
            assert(digits.drop_first()[i] == digits[i + 1]);
        }
        digits_are_run(digits.drop_first(), rest);
        assert(digits[0] >= '0');
        assert((digits + rest).drop_first() =~= digits.drop_first() + rest);
    } else {
        assert(digits + rest =~= rest);
    }
}

/// A line of a script says the edit that is written on it: the number of the line
/// in decimal digits, the letter of the edit, and behind a change or an append the
/// text, which one space may set off. A number with anything else behind it, or
/// with nothing, says no edit, and neither does a line without a number.
pub proof fn lines_say_their_edit(digits: Seq<char>, op: char, arg: Seq<char>)
    requires
        digits.len() > 0,
        forall|i: int| 0 <= i < digits.len() ==> '0' <= #[trigger] digits[i] <= '9',
        op < '0' || op > '9',
    ensures
        text::digits_value(digits) <= usize::MAX ==> {
            let n = text::digits_value(digits);
            let line = digits.push(op) + arg;
            let text = if arg.len() > 0 && arg[0] == ' ' {
                arg.skip(1)
            } else {
                arg
            };
            &&& op == 'a' ==> parse_line(line) == LineView::Edit(
                EditView::Append { line: n, text },
            )
            &&& op == 'c' ==> parse_line(line) == LineView::Edit(
                EditView::Change { line: n, text },
            )
            &&& op == 'd' && arg.len() == 0 ==> parse_line(line) == LineView::Edit(
                EditView::Delete { line: n },
            )
            &&& op == 'd' && arg.len() > 0 ==> parse_line(line) is Bad
            &&& op != 'a' && op != 'c' && op != 'd' ==> parse_line(line) is Bad
        },
        text::digits_value(digits) > usize::MAX ==> parse_line(digits.push(op) + arg) is Bad,
        parse_line(digits) is Bad,
        op == '#' ==> parse_line(seq![op] + arg) is Skip,
        op != '#' ==> parse_line(seq![op] + arg) is Bad,
        parse_line(Seq::empty()) is Skip,
{
    let rest = seq![op] + arg;
    let line = digits.push(op) + arg;
    digits_are_run(digits, rest);
    assert(digits + rest =~= line);
    assert(line.take(digits.len() as int) =~= digits);
    assert(line.skip(digits.len() as int + 1) =~= arg);
    assert(line[digits.len() as int] == op);
    assert(line[0] == digits[0]);
    assert(arg.len() > 0 ==> arg.drop_first() =~= arg.skip(1));
    digits_are_run(digits, Seq::empty());
    assert(digits + Seq::<char>::empty() =~= digits);
    digits_are_run(Seq::empty(), rest);
    assert(Seq::<char>::empty() + rest =~= rest);
}

/// A script says what its lines say, one after the other: the edits of its first
/// part and then those of the rest, and it is malformed where a part of it is.
pub proof fn scripts_say_what_their_lines_say(a: Seq<Seq<char>>, b: Seq<Seq<char>>, line: Seq<char>)
    ensures
        match (parse_script(a), parse_script(b)) {
            (Err(m), _) => parse_script(a + b) == Err::<Seq<EditView>, Seq<char>>(m),
            (Ok(_), Err(m)) => parse_script(a + b) == Err::<Seq<EditView>, Seq<char>>(m),
            (Ok(x), Ok(y)) => parse_script(a + b) == Ok::<Seq<EditView>, Seq<char>>(x + y),
        },
        parse_script(seq![line]) == match parse_line(line) {
            LineView::Skip => Ok::<Seq<EditView>, Seq<char>>(seq![]),
            LineView::Edit(e) => Ok(seq![e]),
            LineView::Bad(m) => Err(m),
        },
    decreases b.len(),
{
    reveal_with_fuel(parse_script, 2);
    assert(seq![line].drop_last() =~= Seq::<Seq<char>>::empty());
    assert(parse_line(line) is Edit ==> Seq::<EditView>::empty().push(parse_line(line)->Edit_0)
        =~= seq![parse_line(line)->Edit_0]);
    if b.len() == 0 {
        assert(a + b =~= a);
        if parse_script(a) is Ok {
            assert(parse_script(a)->Ok_0 + Seq::<EditView>::empty() =~= parse_script(a)->Ok_0);
        }
    } else {
        scripts_say_what_their_lines_say(a, b.drop_last(), line);
        assert((a + b).drop_last() =~= a + b.drop_last());
        assert((a + b).last() == b.last());
        if parse_script(a) is Ok && parse_script(b) is Ok && parse_line(b.last()) is Edit {
            let x = parse_script(a)->Ok_0;
            let y = parse_script(b.drop_last())->Ok_0;
            let e = parse_line(b.last())->Edit_0;
            assert((x + y).push(e) =~= x + y.push(e));
        }
    }
}

proof fn written_edit_is_read(e: EditView, line: Seq<char>)
    requires
        e.line() <= usize::MAX,
        line == match e {
            EditView::Append { line, text } => text::decimal(line) + seq!['a', ' '] + text,
            EditView::Delete { line } => text::decimal(line) + seq!['d'],
            EditView::Change { line, text } => text::decimal(line) + seq!['c', ' '] + text,
        },
    ensures
        parse_line(line) == LineView::Edit(e),
{
    let digits = text::decimal(e.line());
    text::decimal_denotes(e.line());
    assert forall|i: int| 0 <= i < digits.len() implies '0' <= #[trigger] digits[i] <= '9' by {
        assert(text::is_digit(digits[i]));
    }
    match e {
        EditView::Append { text, .. } => {
            let arg = seq![' '] + text;
            lines_say_their_edit(digits, 'a', arg);
            assert(digits.push('a') + arg =~= line);
            assert(arg.skip(1) =~= text);
        },
        EditView::Delete { .. } => {
            lines_say_their_edit(digits, 'd', Seq::empty());
            assert(digits.push('d') + Seq::<char>::empty() =~= line);
        },
        EditView::Change { text, .. } => {
            let arg = seq![' '] + text;
            lines_say_their_edit(digits, 'c', arg);
            assert(digits.push('c') + arg =~= line);
            assert(arg.skip(1) =~= text);
        },
    }
}

proof fn written_edits_are_read(edits: Seq<EditView>, lines: Seq<Seq<char>>)
    requires
        lines.len() == edits.len(),
        forall|i: int|
            0 <= i < edits.len() ==> (#[trigger] edits[i]).line() <= usize::MAX && lines[i]
                == match edits[i] {
                EditView::Append { line, text } => text::decimal(line) + seq!['a', ' '] + text,
                EditView::Delete { line } => text::decimal(line) + seq!['d'],
                EditView::Change { line, text } => text::decimal(line) + seq!['c', ' '] + text,
            },
    ensures
        parse_script(lines) == Ok::<Seq<EditView>, Seq<char>>(edits),
    decreases edits.len(),
{
    if edits.len() == 0 {
        assert(edits =~= Seq::<EditView>::empty());
    } else {
        let front = edits.drop_last();
        let k = edits.len() - 1;
        assert forall|i: int| 0 <= i < front.len() implies (#[trigger] front[i]).line()
            <= usize::MAX && lines.drop_last()[i] == match front[i] {
            EditView::Append { line, text } => text::decimal(line) + seq!['a', ' '] + text,
            EditView::Delete { line } => text::decimal(line) + seq!['d'],
            EditView::Change { line, text } => text::decimal(line) + seq!['c', ' '] + text,
        } by {
            assert(front[i] == edits[i]);
            assert(lines.drop_last()[i] == lines[i]);
        }
        written_edits_are_read(front, lines.drop_last());
        assert(edits[k] == edits.last());
        written_edit_is_read(edits.last(), lines.last());
        assert(front.push(edits.last()) =~= edits);
    }
}

/// A script that writes its edits out, one on each line, does to a text what the
/// edits do.
pub proof fn scripts_do_what_they_write(
    original: Seq<char>,
    edits: Seq<EditView>,
    lines: Seq<Seq<char>>,
)
    requires
        edits.len() > 0,
        lines.len() == edits.len(),
        forall|i: int| 0 <= i < lines.len() ==> !(#[trigger] lines[i]).contains('\n'),
        forall|i: int|
            0 <= i < edits.len() ==> (#[trigger] edits[i]).line() <= usize::MAX && lines[i]
                == match edits[i] {
                EditView::Append { line, text } => text::decimal(line) + seq!['a', ' '] + text,
                EditView::Delete { line } => text::decimal(line) + seq!['d'],
                EditView::Change { line, text } => text::decimal(line) + seq!['c', ' '] + text,
            },
    ensures
        patched(original, text::join(lines, seq!['\n'])) == apply_edits(original, edits),
{
    text::join_split(lines, '\n');
    written_edits_are_read(edits, lines);
}

/// Where no two edits refer to the same line and some refer to lines past the last, the
/// edit of the highest line is the one that is told, with the number of lines.
pub proof fn edits_past_the_end_are_told(original: Seq<char>, edits: Seq<EditView>, i: int)
    requires
        forall|a: int, b: int|
            0 <= a < b < edits.len() ==> (#[trigger] edits[a]).line() != (
            #[trigger] edits[b]).line(),
        0 <= i < edits.len(),
        edits[i].line() > lines_of(original).len(),
        forall|k: int| 0 <= k < edits.len() ==> (#[trigger] edits[k]).line() <= edits[i].line(),
    ensures
        ({
            let word = match edits[i] {
                EditView::Append { .. } => "append"@,
                EditView::Delete { .. } => "delete"@,
                EditView::Change { .. } => "change"@,
            };
            apply_edits(original, edits) == Err::<Seq<char>, Seq<char>>(
                word + " position "@ + text::decimal(edits[i].line()) + " out of range (len "@
                    + text::decimal(lines_of(original).len()) + ")"@,
            )
        }),
{
    assert forall|n: nat| !#[trigger] repeated(edits, n) by {
        no_edits_repeat(edits, n);
    }
    assert(targeted(edits, edits[i].line()));
    assert(edits.contains(edits[i]));
    assert(is_highest(edits, edits[i]));
    highest_unique(edits, edits[i]);
}

}
