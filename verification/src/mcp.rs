//! The MCP server: a fleet of named workspaces, the connections to them, and what
//! the tools say.

use vstd::prelude::*;

use crate::client::Endpoint;
use crate::fs_ops;
use crate::listing;
use crate::messages::{
    ListEntry, ListKind, ListResult, ReadResult, TransferResult, UndoResult, WriteOrPatchResult,
};
use crate::text;

verus! {

pub const SERVER_NAME: &'static str = "agent-remote-mcp";

/// How often a connection is tried.
pub const CONNECT_ATTEMPTS: u32 = 4;

/// How long to wait between two tries, in milliseconds.
pub const CONNECT_BACKOFF_MS: u64 = 2000;

/// What the fleet file says of a workspace.
#[derive(Debug)]
pub struct WorkspaceEntry {
    /// The SSH host; without one, the server runs on this machine.
    pub host: Option<String>,
    pub root: String,
    /// The server binary on that machine.
    pub bin: Option<String>,
    pub config: Option<String>,
    pub state_base: Option<String>,
    /// A description, for telling entries apart whose names are ambiguous.
    pub label: Option<String>,
}

/// What the fleet file declares: its workspaces in the order of their names.
#[derive(Debug)]
pub struct FleetFile {
    pub workspaces: Vec<(String, WorkspaceEntry)>,
}

impl FleetFile {
    /// The names of the workspaces, in order.
    pub open spec fn names(&self) -> Seq<Seq<char>> {
        self.workspaces@.map_values(|w: (String, WorkspaceEntry)| w.0@)
    }

    /// The workspaces stand in the order of their names, and no name stands twice.
    pub open spec fn wf(&self) -> bool {
        listing::names_in_order(self.names())
    }

    /// Whether the workspaces stand in the order of their names, and no name stands
    /// twice.
    pub fn in_order(&self) -> (yes: bool)
        ensures
            yes == self.wf(),
    {
        let ghost names = self.names();
        let n: usize = self.workspaces.len();
        let mut k: usize = 1;
        while k < n
            invariant
                1 <= k,
                n > 0 ==> k <= n,
                n == self.workspaces@.len(),
                names == self.names(),
                names.len() == n,
                forall|i: int, j: int|
                    0 <= i < j < k && j < n ==> listing::name_lt(
                        #[trigger] names[i],
                        #[trigger] names[j],
                    ),
            decreases n - k,
        {
            let before = self.workspaces[k - 1].0.as_str();
            let name = self.workspaces[k].0.as_str();
            assert(names[k - 1] == before@ && names[k as int] == name@);
            if !listing::name_before(before, name) {
                return false;
            }
            proof {
                assert forall|i: int, j: int| 0 <= i < j < k + 1 && j < n implies listing::name_lt(
                    #[trigger] names[i],
                    #[trigger] names[j],
                ) by {
                    if j == k && i < k - 1 {
                        listing::name_lt_transitive(names[i], names[k - 1], names[j]);
                    }
                }
            }
            k += 1;
        }
        true
    }
}

/// A configured workspace: where its server runs, plus display metadata.
#[derive(Debug, PartialEq, Eq)]
pub struct Workspace {
    pub endpoint: Endpoint,
    pub label: Option<String>,
}

/// Whether two entries address the same place.
pub open spec fn same_place(a: WorkspaceEntry, b: WorkspaceEntry) -> bool {
    fs_ops::chars_in(a.host) == fs_ops::chars_in(b.host) && a.root@ == b.root@
}

/// Whether the entries at `i` and `j` address the same place, and no two entries
/// before `j` do.
pub open spec fn is_first_clash(entries: Seq<(String, WorkspaceEntry)>, i: int, j: int) -> bool {
    &&& 0 <= i < j < entries.len()
    &&& same_place(entries[i].1, entries[j].1)
    &&& no_clash_before(entries, j)
}

/// Whether no two entries before `j` address the same place.
pub open spec fn no_clash_before(entries: Seq<(String, WorkspaceEntry)>, j: int) -> bool {
    forall|a: int, b: int|
        0 <= a < b < j ==> !same_place((#[trigger] entries[a]).1, (#[trigger] entries[b]).1)
}

/// The binary of an entry that names none.
pub open spec fn bin_of(entry: WorkspaceEntry) -> Seq<char> {
    match entry.bin {
        Some(b) => b@,
        None => "agent-remote-server"@,
    }
}

/// Whether `w` is the workspace that an entry declares.
pub open spec fn is_workspace_of(w: Workspace, entry: WorkspaceEntry) -> bool {
    &&& w.label == entry.label
    &&& match (entry.host, w.endpoint) {
        (
            Some(h),
            Endpoint::Ssh { host, remote_bin, root, state_base, config },
        ) => host == h && remote_bin@ == bin_of(entry) && root == entry.root && state_base
            == entry.state_base && config == entry.config,
        (
            None,
            Endpoint::Local { server_bin, root, state_base, config },
        ) => server_bin@ == bin_of(entry) && root == entry.root && state_base == entry.state_base
            && config == entry.config,
        _ => false,
    }
}

/// What two workspaces at the same place are refused with.
pub open spec fn clash_message(prev: Seq<char>, name: Seq<char>) -> Seq<char> {
    "workspaces '"@ + prev + "' and '"@ + name
        + "' address the same host and root; they would contend for the same server state lock"@
}

fn same_host(a: &Option<String>, b: &Option<String>) -> (same: bool)
    ensures
        same == (fs_ops::chars_in(*a) == fs_ops::chars_in(*b)),
{
    match (a, b) {
        (Some(x), Some(y)) => text::str_eq(x.as_str(), y.as_str()),
        (None, None) => true,
        _ => false,
    }
}

fn earlier_at_same_place(entries: &Vec<(String, WorkspaceEntry)>, j: usize) -> (out: Option<usize>)
    requires
        j < entries@.len(),
    ensures
        match out {
            Some(i) => i < j && same_place(entries@[i as int].1, entries@[j as int].1),
            None => forall|i: int|
                0 <= i < j ==> !same_place((#[trigger] entries@[i]).1, entries@[j as int].1),
        },
{
    let mut i: usize = 0;
    while i < j
        invariant
            i <= j < entries@.len(),
            forall|k: int|
                0 <= k < i ==> !same_place((#[trigger] entries@[k]).1, entries@[j as int].1),
        decreases j - i,
    {
        if same_host(&entries[i].1.host, &entries[j].1.host) && text::str_eq(
            entries[i].1.root.as_str(),
            entries[j].1.root.as_str(),
        ) {
            return Some(i);
        }
        i += 1;
    }
    None
}

fn workspace_for(entry: WorkspaceEntry) -> (w: Workspace)
    ensures
        is_workspace_of(w, entry),
{
    let bin = match entry.bin {
        Some(b) => b,
        None => "agent-remote-server".to_owned(),
    };
    let endpoint = match entry.host {
        Some(host) => Endpoint::Ssh {
            host,
            remote_bin: bin,
            root: entry.root,
            state_base: entry.state_base,
            config: entry.config,
        },
        None => Endpoint::Local {
            server_bin: bin,
            root: entry.root,
            state_base: entry.state_base,
            config: entry.config,
        },
    };
    Workspace { endpoint, label: entry.label }
}

/// Whether `out` is the fleet that was declared, or the refusal.
pub open spec fn fleet_parsed(
    out: Result<Vec<(String, Workspace)>, String>,
    read: Result<FleetFile, String>,
) -> bool {
    match read {
        Err(m) => out == Err::<Vec<(String, Workspace)>, String>(m),
        Ok(file) => match out {
            Ok(fleet) => {
                &&& file.workspaces@.len() > 0
                &&& no_clash_before(file.workspaces@, file.workspaces@.len() as int)
                &&& fleet@.len() == file.workspaces@.len()
                &&& names_of(fleet@) == file.names()
                &&& listing::names_in_order(names_of(fleet@))
                &&& forall|i: int|
                    0 <= i < fleet@.len() ==> (#[trigger] fleet@[i]).0
                        == file.workspaces@[i].0 && is_workspace_of(
                        fleet@[i].1,
                        file.workspaces@[i].1,
                    )
            },
            Err(m) => {
                ||| file.workspaces@.len() == 0 && m@ == "fleet config declares no workspaces"@
                ||| exists|i: int, j: int| #[trigger]
                    is_first_clash(file.workspaces@, i, j) && m@ == clash_message(
                        file.workspaces@[i].0@,
                        file.workspaces@[j].0@,
                    )
            },
        },
    }
}

/// The workspaces of a fleet file, which may not have been readable. An empty
/// fleet is refused, and so are two workspaces at the same place: they would
/// contend for the same server state lock, and one of them would always fail.
pub fn parse_fleet(read: Result<FleetFile, String>) -> (out: Result<Vec<(String, Workspace)>, String>)
    requires
        read matches Ok(file) ==> file.wf(),
    ensures
        fleet_parsed(out, read),
{
    let file = match read {
        Ok(file) => file,
        Err(m) => {
            return Err(m);
        },
    };
    let entries = file.workspaces;
    let ghost all = entries@;
    let n: usize = entries.len();
    if n == 0 {
        return Err("fleet config declares no workspaces".to_owned());
    }
    let mut j: usize = 0;
    while j < n
        invariant
            j <= n,
            n == entries@.len(),
            all == entries@,
            read matches Ok(f) && f.workspaces@ == all,
            no_clash_before(all, j as int),
        decreases n - j,
    {
        if let Some(i) = earlier_at_same_place(&entries, j) {
            let m = text::concat5(
                "workspaces '",
                entries[i].0.as_str(),
                "' and '",
                entries[j].0.as_str(),
                "' address the same host and root; they would contend for the same server state lock",
            );
            assert(is_first_clash(all, i as int, j as int));
            return Err(m);
        }
        j += 1;
    }
    let mut out: Vec<(String, Workspace)> = Vec::new();
    for pair in it: entries.into_iter()
        invariant
            it.seq() == all,
            out@.len() == it.index(),
            forall|i: int|
                0 <= i < out@.len() ==> (#[trigger] out@[i]).0 == all[i].0 && is_workspace_of(
                    out@[i].1,
                    all[i].1,
                ),
    {
        let (name, entry) = pair;
        out.push((name, workspace_for(entry)));
    }
    assert(names_of(out@) =~= read->Ok_0.names());
    Ok(out)
}

/// The fleet of an MCP server, fixed for the life of the process.
pub struct RemoteWorkspaceServer {
    workspaces: Vec<(String, Workspace)>,
}

/// The names of the workspaces, in order.
pub open spec fn names_of(workspaces: Seq<(String, Workspace)>) -> Seq<Seq<char>> {
    workspaces.map_values(|w: (String, Workspace)| w.0@)
}

/// What a name is refused with that no workspace has.
pub open spec fn unknown_workspace(name: Seq<char>, names: Seq<Seq<char>>) -> Seq<char> {
    "unknown_workspace: '"@ + name + "' is not a configured workspace; available workspaces: "@
        + text::join(names, ", "@)
}

/// Whether `out` is the position of the workspace with the given name, or the refusal.
pub open spec fn is_handle(
    out: Result<usize, String>,
    fleet: Seq<(String, Workspace)>,
    name: Seq<char>,
) -> bool {
    match out {
        Ok(i) => {
            &&& i < fleet.len()
            &&& fleet[i as int].0@ == name
            &&& forall|k: int|
                0 <= k < fleet.len() && k != i ==> (#[trigger] fleet[k]).0@ != name
        },
        Err(m) => !names_of(fleet).contains(name) && m@ == unknown_workspace(name, names_of(fleet)),
    }
}

impl RemoteWorkspaceServer {
    pub closed spec fn fleet(&self) -> Seq<(String, Workspace)> {
        self.workspaces@
    }

    /// The workspaces stand in the order of their names, and no name stands twice.
    pub open spec fn wf(&self) -> bool {
        listing::names_in_order(names_of(self.fleet()))
    }

    pub fn new(fleet: Vec<(String, Workspace)>) -> (s: Self)
        requires
            listing::names_in_order(names_of(fleet@)),
        ensures
            s.wf(),
            s.fleet() == fleet@,
    {
        RemoteWorkspaceServer { workspaces: fleet }
    }

    /// How many workspaces there are.
    pub fn len(&self) -> (n: usize)
        ensures
            n == self.fleet().len(),
    {
        self.workspaces.len()
    }

    /// The name and the workspace at a position.
    pub fn at(&self, i: usize) -> (out: (&str, &Workspace))
        requires
            i < self.fleet().len(),
        ensures
            out.0@ == self.fleet()[i as int].0@,
            *out.1 == self.fleet()[i as int].1,
    {
        (self.workspaces[i].0.as_str(), &self.workspaces[i].1)
    }

    /// The position of the workspace with the given name, of which there is one.
    pub fn handle(&self, workspace: &str) -> (out: Result<usize, String>)
        requires
            self.wf(),
        ensures
            is_handle(out, self.fleet(), workspace@),
    {
        let n: usize = self.workspaces.len();
        let mut names: Vec<String> = Vec::new();
        let mut i: usize = 0;
        while i < n
            invariant
                i <= n,
                n == self.workspaces@.len(),
                text::views(names@) =~= names_of(self.workspaces@).take(i as int),
                self.wf(),
                forall|k: int| 0 <= k < i ==> (#[trigger] self.workspaces@[k]).0@ != workspace@,
            decreases n - i,
        {
            if text::str_eq(self.workspaces[i].0.as_str(), workspace) {
                proof {
                    let all = names_of(self.workspaces@);
                    assert forall|k: int| 0 <= k < all.len() && k != i implies (
                    #[trigger] self.workspaces@[k]).0@ != workspace@ by {
                        listing::ordered_names_are_distinct(all, k, i as int);
                        assert(all[k] == self.workspaces@[k].0@);
                    }
                }
                return Ok(i);
            }
            let ghost before = text::views(names@);
            names.push(self.workspaces[i].0.clone());
            assert(text::views(names@) =~= before.push(self.workspaces@[i as int].0@));
            i += 1;
        }
        proof {
            assert(names_of(self.workspaces@).take(n as int) =~= names_of(self.workspaces@));
            let all = names_of(self.workspaces@);
            assert forall|k: int| 0 <= k < all.len() implies all[k] != workspace@ by {
                assert(all[k] == self.workspaces@[k].0@);
            }
        }
        let mut m = text::concat3(
            "unknown_workspace: '",
            workspace,
            "' is not a configured workspace; available workspaces: ",
        );
        m.append(text::join_strings(&names, ", ").as_str());
        Err(m)
    }
}

/// What a try to connect came to.
pub enum Tried {
    /// The transport could not be started.
    ConnectFailed(String),
    /// The server was reached, but the round-trip did not survive.
    ProbeFailed(String),
}

/// The word by which an agent tells failures apart.
pub open spec fn failure_code(t: Tried) -> Seq<char> {
    match t {
        Tried::ConnectFailed(_) => "connect_failed"@,
        Tried::ProbeFailed(_) => "probe_failed"@,
    }
}

/// What went wrong with a try.
pub open spec fn failure_cause(t: Tried) -> Seq<char> {
    match t {
        Tried::ConnectFailed(e) => e@,
        Tried::ProbeFailed(e) => e@,
    }
}

/// What to do next about a connection.
pub enum Attempt {
    /// Try to connect, after waiting where `wait` says so.
    Connect { wait: bool },
    /// Give up, with this message.
    GiveUp(String),
}

/// A connection that is being set up.
pub struct Connecting {
    tried: u32,
    last: Option<Tried>,
}

/// What is said where all tries failed, `last` being the last one.
pub open spec fn give_up_message(workspace: Seq<char>, tried: nat, last: Tried) -> Seq<char> {
    failure_code(last) + ": cannot reach workspace '"@ + workspace + "' after "@ + text::decimal(
        tried,
    ) + " attempts (attempt "@ + text::decimal(tried) + ": "@ + failure_cause(last) + ")"@
}

/// Whether `out` is what to do next after `tried` tries failed, the last of them as
/// `last` says.
pub open spec fn is_next(
    out: Attempt,
    tried: u32,
    last: Option<Tried>,
    workspace: Seq<char>,
) -> bool {
    if tried < CONNECT_ATTEMPTS {
        out == (Attempt::Connect { wait: tried > 0 })
    } else {
        out matches Attempt::GiveUp(m) && m@ == give_up_message(workspace, tried as nat, last->0)
    }
}

impl Connecting {
    /// How many tries failed.
    pub closed spec fn tried(&self) -> u32 {
        self.tried
    }

    /// The last failure.
    pub closed spec fn last(&self) -> Option<Tried> {
        self.last
    }

    pub open spec fn wf(&self) -> bool {
        self.tried() <= CONNECT_ATTEMPTS && (self.tried() > 0 <==> self.last() is Some)
    }

    pub fn new() -> (c: Self)
        ensures
            c.wf(),
            c.tried() == 0,
            c.last() is None,
    {
        Connecting { tried: 0, last: None }
    }

    /// What to do next: the first try comes at once, each further one after a
    /// pause, and after the last one comes none.
    pub fn next(&self, workspace: &str) -> (out: Attempt)
        requires
            self.wf(),
        ensures
            is_next(out, self.tried(), self.last(), workspace@),
    {
        if self.tried < CONNECT_ATTEMPTS {
            return Attempt::Connect { wait: self.tried > 0 };
        }
        let n = text::decimal_u64(self.tried as u64);
        let (code, cause) = match &self.last {
            Some(Tried::ConnectFailed(e)) => ("connect_failed", e.as_str()),
            Some(Tried::ProbeFailed(e)) => ("probe_failed", e.as_str()),
            None => vstd::pervasive::unreached(),
        };
        let mut m = text::concat5(
            code,
            ": cannot reach workspace '",
            workspace,
            "' after ",
            n.as_str(),
        );
        m.append(" attempts (attempt ");
        m.append(n.as_str());
        m.append(": ");
        m.append(cause);
        m.append(")");
        Attempt::GiveUp(m)
    }

    /// Notes a try that failed.
    pub fn failed(&mut self, t: Tried)
        requires
            old(self).wf(),
            old(self).tried() < CONNECT_ATTEMPTS,
        ensures
            final(self).wf(),
            final(self).tried() == old(self).tried() + 1,
            final(self).last() == Some(t),
    {
        self.tried = self.tried + 1;
        self.last = Some(t);
    }
}

/// What a single probe of a workspace says: nothing where it is healthy.
pub fn check_workspace(probe: Result<(), Tried>) -> (out: Result<(), String>)
    ensures
        match probe {
            Ok(_) => out is Ok,
            Err(t) => out matches Err(m) && m@ == failure_code(t) + ": "@ + failure_cause(t),
        },
{
    match probe {
        Ok(_) => Ok(()),
        Err(Tried::ConnectFailed(e)) => Err(text::concat3("connect_failed", ": ", e.as_str())),
        Err(Tried::ProbeFailed(e)) => Err(text::concat3("probe_failed", ": ", e.as_str())),
    }
}

/// The line of a health report for one workspace.
pub fn check_line(name: &str, endpoint: &Endpoint, checked: &Result<(), String>) -> (out: String)
    ensures
        out@ == name@ + " ["@ + endpoint.spec_host() + ":"@ + endpoint.spec_root() + "]: "@ + (
        match checked {
            Ok(_) => "ok"@,
            Err(m) => m@,
        }),
{
    let mut out = text::concat5(name, " [", endpoint.host(), ":", endpoint.root());
    out.append("]: ");
    match checked {
        Ok(_) => out.append("ok"),
        Err(m) => out.append(m.as_str()),
    }
    out
}

/// The line of a listing for one entry.
pub open spec fn entry_line(e: ListEntry) -> Seq<char> {
    match e.kind {
        ListKind::Dir => "  "@ + e.name@ + "/"@,
        ListKind::File => match e.size {
            Some(s) => "  "@ + e.name@ + " ("@ + text::decimal(s as nat) + " bytes)"@,
            None => "  "@ + e.name@,
        },
        ListKind::Symlink => "  "@ + e.name@ + " ->"@,
    }
}

fn show_entry(e: &ListEntry) -> (out: String)
    ensures
        out@ == entry_line(*e),
{
    match e.kind {
        ListKind::Dir => text::concat3("  ", e.name.as_str(), "/"),
        ListKind::File => match e.size {
            Some(s) => text::concat5(
                "  ",
                e.name.as_str(),
                " (",
                text::decimal_u64(s).as_str(),
                " bytes)",
            ),
            None => text::concat("  ", e.name.as_str()),
        },
        ListKind::Symlink => text::concat3("  ", e.name.as_str(), " ->"),
    }
}

/// The text of a page of a directory.
pub open spec fn list_text(r: ListResult) -> Seq<char> {
    if r.entries@.len() == 0 {
        "(empty directory)"@
    } else {
        text::join(r.entries@.map_values(|e: ListEntry| entry_line(e)), "\n"@) + (
        match r.next_offset {
            Some(next) => "\n[more entries: use offset="@ + text::decimal(next as nat) + "]"@,
            None => Seq::<char>::empty(),
        })
    }
}

/// The text of a page of a directory.
pub fn show_list(r: &ListResult) -> (out: String)
    ensures
        out@ == list_text(*r),
{
    if r.entries.len() == 0 {
        return "(empty directory)".to_owned();
    }
    let mut lines: Vec<String> = Vec::new();
    let n: usize = r.entries.len();
    let mut i: usize = 0;
    while i < n
        invariant
            i <= n,
            n == r.entries@.len(),
            lines@.len() == i,
            forall|k: int| 0 <= k < i ==> (#[trigger] lines@[k])@ == entry_line(r.entries@[k]),
        decreases n - i,
    {
        lines.push(show_entry(&r.entries[i]));
        i += 1;
    }
    assert(text::views(lines@) =~= r.entries@.map_values(|e: ListEntry| entry_line(e)));
    let mut out = text::join_strings(&lines, "\n");
    let ghost body = out@;
    match r.next_offset {
        Some(next) => {
            out.append("\n[more entries: use offset=");
            out.append(text::decimal_u64(next as u64).as_str());
            out.append("]");
            assert(out@ =~= list_text(*r));
        },
        None => {
            assert(body + Seq::<char>::empty() =~= body);
        },
    }
    out
}

/// The text of a page of a file.
pub open spec fn read_text(r: ReadResult) -> Seq<char> {
    r.content@ + (match r.next_offset {
        Some(next) => "\n\n[output truncated; use offset="@ + text::decimal(next as nat)
            + " to read more]"@,
        None => Seq::<char>::empty(),
    }) + (match r.hash {
        Some(h) => "\n\n[hash: "@ + h@ + "]"@,
        None => Seq::<char>::empty(),
    })
}

/// The text of a page of a file.
pub fn show_read(r: ReadResult) -> (out: String)
    ensures
        out@ == read_text(r),
{
    let mut out = r.content.clone();
    if let Some(next) = r.next_offset {
        out.append("\n\n[output truncated; use offset=");
        out.append(text::decimal_u64(next).as_str());
        out.append(" to read more]");
    }
    if let Some(hash) = &r.hash {
        out.append("\n\n[hash: ");
        out.append(hash.as_str());
        out.append("]");
    }
    assert(out@ =~= read_text(r));
    out
}

fn show_mutation(what: &str, path: &str, workspace: &str, w: &WriteOrPatchResult) -> (out: String)
    ensures
        out@ == mutation_text(what@, path@, workspace@, *w),
{
    let mut out = text::concat5(what, path, " in workspace '", workspace, "'. operation_id=");
    out.append(w.operation_id.as_str());
    out.append(", new_hash=");
    out.append(w.new_hash.as_str());
    out
}

/// What is said of a mutation that took effect.
pub open spec fn mutation_text(
    what: Seq<char>,
    path: Seq<char>,
    workspace: Seq<char>,
    w: WriteOrPatchResult,
) -> Seq<char> {
    what + path + " in workspace '"@ + workspace + "'. operation_id="@ + w.operation_id@
        + ", new_hash="@ + w.new_hash@
}

/// What is said of a write that took effect.
pub fn show_write(path: &str, workspace: &str, w: &WriteOrPatchResult) -> (out: String)
    ensures
        out@ == mutation_text("Wrote "@, path@, workspace@, *w),
{
    show_mutation("Wrote ", path, workspace, w)
}

/// What is said of a patch that took effect.
pub fn show_patch(path: &str, workspace: &str, w: &WriteOrPatchResult) -> (out: String)
    ensures
        out@ == mutation_text("Patched "@, path@, workspace@, *w),
{
    show_mutation("Patched ", path, workspace, w)
}

/// What is said of a removal that took effect.
pub fn show_delete(path: &str, workspace: &str, w: &WriteOrPatchResult) -> (out: String)
    ensures
        out@ == "Deleted "@ + path@ + " in workspace '"@ + workspace@ + "'. operation_id="@
            + w.operation_id@,
{
    let mut out = text::concat5("Deleted ", path, " in workspace '", workspace, "'. operation_id=");
    out.append(w.operation_id.as_str());
    out
}

/// What is said of an undo that took effect.
pub fn show_undo(operation_id: &str, workspace: &str, u: &UndoResult) -> (out: String)
    ensures
        out@ == "Undid target "@ + operation_id@ + " in workspace '"@ + workspace@
            + "'; undo_operation_id="@ + u.operation_id@ + ", new_hash="@ + u.new_hash@,
{
    let mut out = text::concat5(
        "Undid target ",
        operation_id,
        " in workspace '",
        workspace,
        "'; undo_operation_id=",
    );
    out.append(u.operation_id.as_str());
    out.append(", new_hash=");
    out.append(u.new_hash.as_str());
    out
}

/// What is said of a history, whose records are given one per line.
pub fn show_history(workspace: &str, lines: &Vec<String>) -> (out: String)
    ensures
        out@ == (if lines@.len() == 0 {
            "(no operations recorded in workspace '"@ + workspace@ + "')"@
        } else {
            text::join(text::views(lines@), "\n"@)
        }),
{
    if lines.len() == 0 {
        text::concat3("(no operations recorded in workspace '", workspace, "')")
    } else {
        text::join_strings(lines, "\n")
    }
}

/// What is told of a download: the useful path is the local one.
pub fn downloaded(r: TransferResult, local_path: String) -> (out: TransferResult)
    ensures
        out == (TransferResult { path: local_path, ..r }),
{
    TransferResult {
        operation_id: r.operation_id,
        direction: r.direction,
        path: local_path,
        size: r.size,
        sha256: r.sha256,
        duration_ms: r.duration_ms,
    }
}

/// Whether a transfer replaces a file that is there, where the caller left it
/// open: it does not.
pub fn overwrites(overwrite: Option<bool>) -> (yes: bool)
    ensures
        yes == (overwrite == Some(true)),
{
    match overwrite {
        Some(yes) => yes,
        None => false,
    }
}

/// A fleet file is taken exactly where it declares a workspace and no two of them have
/// the same host and root. Every workspace that it declares is in the fleet then, under
/// its name and in its order, as it was declared: over ssh where it has a host, else on
/// this machine, with the usual binary where it names none.
pub proof fn fleets_hold_every_workspace(
    out: Result<Vec<(String, Workspace)>, String>,
    file: FleetFile,
)
    requires
        fleet_parsed(out, Ok(file)),
    ensures
        ({
            let declared = file.workspaces@;
            &&& out is Ok <==> declared.len() > 0 && (forall|a: int, b: int|
                0 <= a < b < declared.len() ==> !((#[trigger] declared[a]).1.root@ == (
                #[trigger] declared[b]).1.root@ && match (declared[a].1.host, declared[b].1.host) {
                    (Some(x), Some(y)) => x@ == y@,
                    (None, None) => true,
                    _ => false,
                }))
            &&& out matches Ok(fleet) ==> {
                &&& fleet@.len() == declared.len()
                &&& forall|i: int|
                    0 <= i < declared.len() ==> {
                        let (name, w) = #[trigger] fleet@[i];
                        let entry = declared[i].1;
                        let bin = match entry.bin {
                            Some(b) => b@,
                            None => "agent-remote-server"@,
                        };
                        &&& name == declared[i].0
                        &&& w.label == entry.label
                        &&& entry.host matches Some(h) ==> {
                            &&& w.endpoint matches Endpoint::Ssh {
                                host,
                                remote_bin,
                                root,
                                state_base,
                                config,
                            }
                            &&& host == h && remote_bin@ == bin && root == entry.root
                            &&& state_base == entry.state_base && config == entry.config
                        }
                        &&& entry.host is None ==> {
                            &&& w.endpoint matches Endpoint::Local {
                                server_bin,
                                root,
                                state_base,
                                config,
                            }
                            &&& server_bin@ == bin && root == entry.root
                            &&& state_base == entry.state_base && config == entry.config
                        }
                    }
            }
        }),
{
    let declared = file.workspaces@;
    if out is Ok {
        assert forall|a: int, b: int| 0 <= a < b < declared.len() implies !((
        #[trigger] declared[a]).1.root@ == (#[trigger] declared[b]).1.root@ && match (
            declared[a].1.host,
            declared[b].1.host,
        ) {
            (Some(x), Some(y)) => x@ == y@,
            (None, None) => true,
            _ => false,
        }) by {
            assert(!same_place(declared[a].1, declared[b].1));
        }
    } else if declared.len() > 0 {
        let (i, j) = choose|i: int, j: int| #[trigger] is_first_clash(declared, i, j);
        assert(is_first_clash(declared, i, j));
        assert(same_place(declared[i].1, declared[j].1));
        assert(declared[i].1.root@ == declared[j].1.root@);
    }
}

/// A workspace is found under its own name, and only a name that none has is refused.
pub proof fn workspaces_are_found_by_name(
    out: Result<usize, String>,
    fleet: Seq<(String, Workspace)>,
    name: Seq<char>,
    i: int,
)
    requires
        is_handle(out, fleet, name),
        fleet.len() <= usize::MAX,
    ensures
        0 <= i < fleet.len() && fleet[i].0@ == name ==> out == Ok::<usize, String>(i as usize),
        (forall|k: int| 0 <= k < fleet.len() ==> (#[trigger] fleet[k]).0@ != name) ==> out is Err,
{
    if 0 <= i < fleet.len() && fleet[i].0@ == name {
        assert(names_of(fleet)[i] == name);
        assert(names_of(fleet).contains(name));
    }
}

/// The text of a listing shows every entry of its page on a line of its own: a
/// directory with a slash, a file with its size where it is known, a link with an
/// arrow.
pub proof fn listings_show_every_entry(r: ListResult, i: int) -> (around: (Seq<char>, Seq<char>))
    requires
        0 <= i < r.entries@.len(),
    ensures
        ({
            let e = r.entries@[i];
            let line = match e.kind {
                ListKind::Dir => "  "@ + e.name@ + "/"@,
                ListKind::Symlink => "  "@ + e.name@ + " ->"@,
                ListKind::File => match e.size {
                    Some(s) => "  "@ + e.name@ + " ("@ + text::decimal(s as nat) + " bytes)"@,
                    None => "  "@ + e.name@,
                },
            };
            &&& list_text(r) == around.0 + line + around.1
            &&& around.0.len() == 0 || around.0.last() == '\n'
            &&& around.1.len() == 0 || around.1[0] == '\n'
            &&& i == 0 ==> around.0.len() == 0
            &&& i == r.entries@.len() - 1 ==> around.1 == match r.next_offset {
                Some(next) => "\n[more entries: use offset="@ + text::decimal(next as nat) + "]"@,
                None => Seq::<char>::empty(),
            }
        }),
{
    reveal_strlit("\n");
    reveal_strlit("\n[more entries: use offset=");
    let lines = r.entries@.map_values(|e: ListEntry| entry_line(e));
    let n = lines.len() as int;
    let more = match r.next_offset {
        Some(next) => "\n[more entries: use offset="@ + text::decimal(next as nat) + "]"@,
        None => Seq::<char>::empty(),
    };
    let front = lines.take(i);
    let back = lines.skip(i + 1);
    let before = if i == 0 {
        Seq::<char>::empty()
    } else {
        text::join(front, "\n"@) + "\n"@
    };
    let after = if i == n - 1 {
        more
    } else {
        "\n"@ + text::join(back, "\n"@) + more
    };
    let line = lines[i];
    assert(seq![line][0] == line);
    assert(text::join(seq![line], "\n"@) == line);
    if i > 0 {
        text::joining_puts_the_separator_between(front, seq![line], "\n"@);
        assert(lines.take(i + 1) =~= front + seq![line]);
    } else {
        assert(lines.take(i + 1) =~= seq![line]);
    }
    assert(text::join(lines.take(i + 1), "\n"@) =~= before + line);
    if i < n - 1 {
        text::joining_puts_the_separator_between(lines.take(i + 1), back, "\n"@);
        assert(lines =~= lines.take(i + 1) + back);
    } else {
        assert(lines.take(i + 1) =~= lines);
    }
    assert(list_text(r) =~= before + line + after);
    (before, after)
}

/// The text of a page starts with its content, tells the offset of the next page
/// exactly where there is one, and ends with the hash.
pub proof fn pages_show_their_content(r: ReadResult)
    ensures
        r.content@.is_prefix_of(read_text(r)),
        r.next_offset is None && r.hash is None ==> read_text(r) == r.content@,
        r.next_offset matches Some(next) ==> (r.content@ + "\n\n[output truncated; use offset="@
            + text::decimal(next as nat) + " to read more]"@).is_prefix_of(read_text(r)),
        r.next_offset is None && r.hash is Some ==> read_text(r) == r.content@ + "\n\n[hash: "@
            + r.hash->0@ + "]"@,
        r.hash matches Some(h) ==> ("\n\n[hash: "@ + h@ + "]"@).is_suffix_of(read_text(r)),
{
    if r.next_offset is None {
        assert(r.content@ + Seq::<char>::empty() =~= r.content@);
        if r.hash is Some {
            assert(read_text(r) =~= r.content@ + "\n\n[hash: "@ + r.hash->0@ + "]"@);
        } else {
            assert(read_text(r) =~= r.content@);
        }
    } else {
        let next = r.next_offset->0;
        assert((r.content@ + "\n\n[output truncated; use offset="@ + text::decimal(next as nat)
            + " to read more]"@) =~= r.content@ + ("\n\n[output truncated; use offset="@
            + text::decimal(next as nat) + " to read more]"@));
    }
    if let Some(h) = r.hash {
        let end = "\n\n[hash: "@ + h@ + "]"@;
        assert(read_text(r).skip(read_text(r).len() - end.len()) =~= end);
    }
}

/// A connection that cannot be set up is given up after four tries, with the word for
/// what went wrong last and the cause of it.
pub proof fn failures_are_told(workspace: Seq<char>, cause: String)
    ensures
        CONNECT_ATTEMPTS == 4,
        failure_code(Tried::ConnectFailed(cause)) == "connect_failed"@,
        failure_code(Tried::ProbeFailed(cause)) == "probe_failed"@,
        failure_cause(Tried::ConnectFailed(cause)) == cause@,
        failure_cause(Tried::ProbeFailed(cause)) == cause@,
        "connect_failed"@.is_prefix_of(
            give_up_message(workspace, 4, Tried::ConnectFailed(cause)),
        ),
        "probe_failed"@.is_prefix_of(give_up_message(workspace, 4, Tried::ProbeFailed(cause))),
        (cause@ + ")"@).is_suffix_of(give_up_message(workspace, 4, Tried::ProbeFailed(cause))),
        (cause@ + ")"@).is_suffix_of(give_up_message(workspace, 4, Tried::ConnectFailed(cause))),
{
    let a = give_up_message(workspace, 4, Tried::ProbeFailed(cause));
    let b = give_up_message(workspace, 4, Tried::ConnectFailed(cause));
    assert(a.skip(a.len() - (cause@ + ")"@).len()) =~= cause@ + ")"@);
    assert(b.skip(b.len() - (cause@ + ")"@).len()) =~= cause@ + ")"@);
    assert(a.take("probe_failed"@.len() as int) =~= "probe_failed"@);
    assert(b.take("connect_failed"@.len() as int) =~= "connect_failed"@);
}

/// A connection is tried at once, then after a pause up to four times in all, and then
/// given up.
pub proof fn connections_are_tried_four_times(
    out: Attempt,
    tried: u32,
    last: Option<Tried>,
    workspace: Seq<char>,
)
    requires
        is_next(out, tried, last, workspace),
    ensures
        tried == 0 ==> out == (Attempt::Connect { wait: false }),
        1 <= tried <= 3 ==> out == (Attempt::Connect { wait: true }),
        tried >= 4 ==> out is GiveUp,
{
}

/// What is said of a change names its path, its workspace, its operation and the hash
/// of the file after it.
pub proof fn changes_are_told_with_their_operation(
    what: Seq<char>,
    path: Seq<char>,
    workspace: Seq<char>,
    w: WriteOrPatchResult,
)
    ensures
        (what + path).is_prefix_of(mutation_text(what, path, workspace, w)),
        (w.operation_id@ + ", new_hash="@ + w.new_hash@).is_suffix_of(
            mutation_text(what, path, workspace, w),
        ),
        mutation_text(what, path, workspace, w).skip((what + path).len() as int).take(
            (" in workspace '"@ + workspace).len() as int,
        ) == " in workspace '"@ + workspace,
{
    let all = mutation_text(what, path, workspace, w);
    let end = w.operation_id@ + ", new_hash="@ + w.new_hash@;
    assert(all.skip(all.len() - end.len()) =~= end);
    assert(all.take((what + path).len() as int) =~= what + path);
    assert(all.skip((what + path).len() as int).take((" in workspace '"@ + workspace).len() as int)
        =~= " in workspace '"@ + workspace);
}

}
