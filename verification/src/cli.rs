//! The command line client: which server it starts, and what it prints.

use vstd::prelude::*;

use crate::client;
use crate::fs_ops;
use crate::messages::{ExecOutput, ListEntry, ListKind};
use crate::text;

verus! {

/// Where the command line says that the server runs.
pub struct Target {
    /// Whether the server runs on this machine.
    pub local: bool,
    pub host: Option<String>,
    pub remote_bin: String,
    pub root: String,
    pub config: Option<String>,
    pub log_dir: Option<String>,
    pub state_base: Option<String>,
}

/// Whether `out` is the command that starts the server, or the refusal.
pub open spec fn starts_server(out: Result<Vec<String>, String>, t: Target) -> bool {
    match out {
        Ok(argv) => {
            &&& t.local || t.host is Some
            &&& text::views(argv@) == (if t.local {
                client::server_words(
                    t.remote_bin@,
                    t.root@,
                    fs_ops::chars_in(t.config),
                    fs_ops::chars_in(t.log_dir),
                    fs_ops::chars_in(t.state_base),
                )
            } else {
                seq![
                    "ssh"@,
                    t.host->0@,
                    client::remote_command(
                        t.remote_bin@,
                        t.root@,
                        fs_ops::chars_in(t.config),
                        fs_ops::chars_in(t.log_dir),
                        fs_ops::chars_in(t.state_base),
                    ),
                ]
            })
        },
        Err(m) => !t.local && t.host is None && m@
            == "--host is required (or use --local to run the server locally)"@,
    }
}

/// The command that starts the server. Without a host it runs on this machine,
/// but only where it is told to.
pub fn server_argv(t: &Target) -> (out: Result<Vec<String>, String>)
    ensures
        starts_server(out, *t),
{
    if t.local {
        return Ok(
            client::local_server_argv(
                t.remote_bin.as_str(),
                t.root.as_str(),
                client::as_str(&t.config),
                client::as_str(&t.log_dir),
                client::as_str(&t.state_base),
            ),
        );
    }
    match &t.host {
        Some(host) => Ok(
            client::ssh_server_argv(
                host.as_str(),
                t.remote_bin.as_str(),
                t.root.as_str(),
                client::as_str(&t.config),
                client::as_str(&t.log_dir),
                client::as_str(&t.state_base),
            ),
        ),
        None => Err("--host is required (or use --local to run the server locally)".to_owned()),
    }
}

/// `count` spaces.
pub open spec fn spaces(count: nat) -> Seq<char> {
    Seq::new(count, |i: int| ' ')
}

/// The text at the right end of a column of the given width; a longer text is
/// left as it is.
pub open spec fn right_aligned(s: Seq<char>, width: nat) -> Seq<char> {
    if s.len() >= width {
        s
    } else {
        spaces((width - s.len()) as nat) + s
    }
}

fn align_right(s: &str, width: usize) -> (out: String)
    ensures
        out@ == right_aligned(s@, width as nat),
{
    let len: usize = text::chars_of(s).len();
    let mut out = String::new();
    if len < width {
        let count: usize = width - len;
        let mut i: usize = 0;
        while i < count
            invariant
                i <= count,
                out@ =~= spaces(i as nat),
            decreases count - i,
        {
            out.push(' ');
            i += 1;
        }
    }
    out.append(s);
    assert(out@ =~= right_aligned(s@, width as nat));
    out
}

/// The letter for what an entry is.
pub open spec fn kind_letter(kind: ListKind) -> Seq<char> {
    match kind {
        ListKind::File => "f"@,
        ListKind::Dir => "d"@,
        ListKind::Symlink => "l"@,
    }
}

/// The line that shows an entry of a directory: what it is, its size where that
/// is known, and its name.
pub open spec fn entry_row(e: ListEntry) -> Seq<char> {
    kind_letter(e.kind) + " "@ + right_aligned(
        match e.size {
            Some(s) => text::decimal(s as nat),
            None => "-"@,
        },
        10,
    ) + " "@ + e.name@
}

/// The line that shows an entry of a directory.
pub fn list_line(e: &ListEntry) -> (out: String)
    ensures
        out@ == entry_row(*e),
{
    let kind = match e.kind {
        ListKind::File => "f",
        ListKind::Dir => "d",
        ListKind::Symlink => "l",
    };
    let size = match e.size {
        Some(s) => text::decimal_u64(s),
        None => "-".to_owned(),
    };
    let column = align_right(size.as_str(), 10);
    text::concat5(kind, " ", column.as_str(), " ", e.name.as_str())
}

/// A number as it is shown.
pub open spec fn signed_decimal(n: int) -> Seq<char> {
    if n < 0 {
        "-"@ + text::decimal((-n) as nat)
    } else {
        text::decimal(n as nat)
    }
}

fn show_code(code: i32) -> (out: String)
    ensures
        out@ == signed_decimal(code as int),
{
    if code < 0 {
        let n: u64 = (-(code as i64)) as u64;
        text::concat("-", text::decimal_u64(n).as_str())
    } else {
        text::decimal_u64(code as u64)
    }
}

/// The line that closes the output of a command.
pub fn exec_footer(code: i32, operation_id: &str) -> (out: String)
    ensures
        out@ == "[exit "@ + signed_decimal(code as int) + "] operation_id="@ + operation_id@,
{
    let mut out = text::concat3("[exit ", show_code(code).as_str(), "] operation_id=");
    out.append(operation_id);
    out
}

/// What is printed of an output stream: its start and its end, with a note
/// between them where something was left out.
pub open spec fn output_text(o: ExecOutput) -> Seq<char> {
    o.prefix@ + (if o.omitted_bytes > 0 {
        "\n["@ + text::decimal(o.omitted_bytes as nat) + " bytes omitted]\n"@
    } else {
        Seq::<char>::empty()
    }) + o.suffix@
}

/// What is printed of an output stream.
pub fn shown_output(o: &ExecOutput) -> (out: String)
    ensures
        out@ == output_text(*o),
{
    let mut out = o.prefix.clone();
    if o.omitted_bytes > 0 {
        out.append(
            text::concat3(
                "\n[",
                text::decimal_u64(o.omitted_bytes).as_str(),
                " bytes omitted]\n",
            ).as_str(),
        );
    }
    out.append(o.suffix.as_str());
    out
}

/// Whether a command can be sent: it needs a program.
pub fn check_argv(argv: &Vec<String>) -> (out: Result<(), String>)
    ensures
        match out {
            Ok(_) => argv@.len() > 0,
            Err(m) => argv@.len() == 0 && m@ == "exec requires at least one argv element"@,
        },
{
    if argv.len() == 0 {
        Err("exec requires at least one argv element".to_owned())
    } else {
        Ok(())
    }
}

/// A column holds its text at the right end, with nothing but spaces before it, and is
/// as wide as it has to be.
pub proof fn columns_end_with_their_text(s: Seq<char>, width: nat)
    ensures
        right_aligned(s, width).len() == vstd::math::max(s.len() as int, width as int),
        right_aligned(s, width).skip(right_aligned(s, width).len() - s.len()) == s,
        forall|i: int|
            0 <= i < right_aligned(s, width).len() - s.len() ==> #[trigger] right_aligned(
                s,
                width,
            )[i] == ' ',
{
    let column = right_aligned(s, width);
    assert(column.skip(column.len() - s.len()) =~= s);
}

/// The row of an entry starts with the letter of its kind and ends with its name.
pub proof fn rows_show_kind_and_name(e: ListEntry)
    ensures
        e.kind == ListKind::File ==> entry_row(e)[0] == 'f',
        e.kind == ListKind::Dir ==> entry_row(e)[0] == 'd',
        e.kind == ListKind::Symlink ==> entry_row(e)[0] == 'l',
        entry_row(e).len() >= 13 + e.name@.len(),
        entry_row(e).skip(entry_row(e).len() - e.name@.len()) == e.name@,
        e.size matches Some(s) ==> entry_row(e).skip(2).take(
            vstd::math::max(text::decimal(s as nat).len() as int, 10),
        ) == right_aligned(text::decimal(s as nat), 10),
{
    reveal_strlit("f");
    reveal_strlit("d");
    reveal_strlit("l");
    reveal_strlit(" ");
    let size = match e.size {
        Some(s) => text::decimal(s as nat),
        None => "-"@,
    };
    columns_end_with_their_text(size, 10);
    let row = entry_row(e);
    assert(row.skip(row.len() - e.name@.len()) =~= e.name@);
    if e.size is Some {
        assert(row.skip(2).take(right_aligned(size, 10).len() as int) =~= right_aligned(size, 10));
    }
}

/// What is printed of a stream is all of it where nothing was left out, and else its
/// start, a line with the number of bytes left out, and its end.
pub proof fn output_is_printed_whole(o: ExecOutput)
    ensures
        o.omitted_bytes == 0 ==> output_text(o) == o.prefix@ + o.suffix@,
        o.omitted_bytes > 0 ==> output_text(o) == o.prefix@ + seq!['\n', '['] + text::decimal(
            o.omitted_bytes as nat,
        ) + " bytes omitted]\n"@ + o.suffix@,
{
    reveal_strlit("\n[");
    assert("\n["@ =~= seq!['\n', '[']);
    if o.omitted_bytes == 0 {
        assert(output_text(o) =~= o.prefix@ + o.suffix@);
    } else {
        assert(output_text(o) =~= o.prefix@ + seq!['\n', '['] + text::decimal(
            o.omitted_bytes as nat,
        ) + " bytes omitted]\n"@ + o.suffix@);
    }
}

/// The server is started on this machine where that is asked for, else over ssh on the
/// host; the shell there reads the same words that are started here.
pub proof fn servers_are_started_where_asked(out: Result<Vec<String>, String>, t: Target)
    requires
        starts_server(out, t),
    ensures
        out is Err <==> !t.local && t.host is None,
        out matches Ok(argv) ==> {
            let words = if t.local {
                Some(text::views(argv@))
            } else {
                crate::quote::shell_words(argv@[2]@)
            };
            &&& !t.local ==> argv@.len() == 3 && argv@[0]@ == "ssh"@ && argv@[1]@ == t.host->0@
            &&& words == Some(
                client::server_words(
                    t.remote_bin@,
                    t.root@,
                    fs_ops::chars_in(t.config),
                    fs_ops::chars_in(t.log_dir),
                    fs_ops::chars_in(t.state_base),
                ),
            )
        },
{
    client::remote_command_reads_back(
        t.remote_bin@,
        t.root@,
        fs_ops::chars_in(t.config),
        fs_ops::chars_in(t.log_dir),
        fs_ops::chars_in(t.state_base),
    );
    if let Ok(argv) = out {
        let views = text::views(argv@);
        if !t.local {
            assert(views.len() == argv@.len());
            assert(views[0] == argv@[0]@ && views[1] == argv@[1]@ && views[2] == argv@[2]@);
        }
    }
}

}
