//! The client side: how the server is started, which request a message belongs
//! to, and what a reply means to the caller.

use vstd::hash_map::StringHashMap;
use vstd::prelude::*;

use crate::error::{ErrorCode, ProtocolError};
use crate::messages::{
    ExecEventKind, ExecResult, ExecTermination, FileEntry, GcResult, ListResult, OperationDetails,
    OperationId, ReadResult, RequestStatusResult, ResultBody, ServerMessage, TransferResult,
    UndoResult, UploadPrepareResult, WriteOrPatchResult,
};
use crate::quote;
use crate::record::AnyOperationRecord;
use crate::text;

verus! {

/// How long a request that does not stream waits for its reply, in milliseconds.
pub const DEFAULT_REQUEST_TIMEOUT_MS: u64 = 120000;

/// Why a request failed.
#[derive(Debug)]
pub enum ClientError {
    Server(ProtocolError),
    Io(String),
    Closed,
    Timeout,
    Serde(String),
}

impl ClientError {
    /// The error as it is shown.
    pub open spec fn shown(self) -> Seq<char> {
        match self {
            ClientError::Server(e) => "protocol error from server: "@ + e.shown(),
            ClientError::Io(m) => "transport io error: "@ + m@,
            ClientError::Closed => "server closed connection"@,
            ClientError::Timeout => "request timed out"@,
            ClientError::Serde(m) => "serde error: "@ + m@,
        }
    }

    /// Whether this is the server's refusal with the given code and message.
    pub open spec fn refuses(self, code: ErrorCode, message: Seq<char>) -> bool {
        self matches ClientError::Server(e) && e.says(code, message)
    }

    /// The error as it is shown.
    pub fn show(&self) -> (out: String)
        ensures
            out@ == self.shown(),
    {
        match self {
            ClientError::Server(e) => text::concat(
                "protocol error from server: ",
                e.show().as_str(),
            ),
            ClientError::Io(m) => text::concat("transport io error: ", m.as_str()),
            ClientError::Closed => "server closed connection".to_owned(),
            ClientError::Timeout => "request timed out".to_owned(),
            ClientError::Serde(m) => text::concat("serde error: ", m.as_str()),
        }
    }
}

/// A transport that starts a command: over ssh, or the server itself.
#[derive(Debug)]
pub struct ArgvTransport {
    pub argv: Vec<String>,
}

/// The text between single quotes, with the single quotes in it escaped, for use
/// in a remote command line.
pub fn shell_quote(s: &str) -> (out: String)
    ensures
        out@ == quote::single_quoted(s@),
{
    quote::single_quote(s)
}

/// The option and its value as two words, where there is a value.
pub open spec fn option_words(option: Seq<char>, value: Option<Seq<char>>) -> Seq<Seq<char>> {
    match value {
        Some(v) => seq![option, v],
        None => seq![],
    }
}

/// The words of the command that starts a server.
pub open spec fn server_words(
    bin: Seq<char>,
    root: Seq<char>,
    config: Option<Seq<char>>,
    log_dir: Option<Seq<char>>,
    state_base: Option<Seq<char>>,
) -> Seq<Seq<char>> {
    seq![bin, "--root"@, root] + option_words("--config"@, config) + option_words(
        "--log-dir"@,
        log_dir,
    ) + option_words("--state-base"@, state_base)
}

/// One option of a remote command line, with its value quoted.
pub open spec fn quoted_option(option: Seq<char>, value: Option<Seq<char>>) -> Seq<char> {
    match value {
        Some(v) => " "@ + option + " "@ + quote::single_quoted(v),
        None => Seq::<char>::empty(),
    }
}

/// The command line that starts a server in a remote shell.
pub open spec fn remote_command(
    bin: Seq<char>,
    root: Seq<char>,
    config: Option<Seq<char>>,
    log_dir: Option<Seq<char>>,
    state_base: Option<Seq<char>>,
) -> Seq<char> {
    quote::single_quoted(bin) + quoted_option("--root"@, Some(root)) + quoted_option(
        "--config"@,
        config,
    ) + quoted_option("--log-dir"@, log_dir) + quoted_option("--state-base"@, state_base)
}

fn push_option(cmd: &mut String, option: &str, value: Option<&str>)
    ensures
        final(cmd)@ == old(cmd)@ + quoted_option(option@, crate::exec::str_view(value)),
{
    let ghost before = cmd@;
    if let Some(v) = value {
        cmd.append(" ");
        cmd.append(option);
        cmd.append(" ");
        cmd.append(shell_quote(v).as_str());
    }
    assert(cmd@ =~= before + quoted_option(option@, crate::exec::str_view(value)));
}

/// The command that starts a server over ssh. `ssh` joins its last arguments with
/// spaces and hands the result to the remote shell, so every argument of the
/// server is quoted into one command line.
pub fn ssh_server_argv(
    host: &str,
    remote_bin: &str,
    root: &str,
    config: Option<&str>,
    log_dir: Option<&str>,
    state_base: Option<&str>,
) -> (argv: Vec<String>)
    ensures
        text::views(argv@) == seq![
            "ssh"@,
            host@,
            remote_command(
                remote_bin@,
                root@,
                crate::exec::str_view(config),
                crate::exec::str_view(log_dir),
                crate::exec::str_view(state_base),
            ),
        ],
{
    let mut cmd = shell_quote(remote_bin);
    push_option(&mut cmd, "--root", Some(root));
    push_option(&mut cmd, "--config", config);
    push_option(&mut cmd, "--log-dir", log_dir);
    push_option(&mut cmd, "--state-base", state_base);
    let ghost line = cmd@;
    let mut argv: Vec<String> = Vec::new();
    argv.push("ssh".to_owned());
    argv.push(host.to_owned());
    argv.push(cmd);
    assert(text::views(argv@) =~= seq!["ssh"@, host@, line]);
    argv
}

/// The command that starts a server on this machine.
pub fn local_server_argv(
    server_bin: &str,
    root: &str,
    config: Option<&str>,
    log_dir: Option<&str>,
    state_base: Option<&str>,
) -> (argv: Vec<String>)
    ensures
        text::views(argv@) == server_words(
            server_bin@,
            root@,
            crate::exec::str_view(config),
            crate::exec::str_view(log_dir),
            crate::exec::str_view(state_base),
        ),
{
    let mut argv: Vec<String> = Vec::new();
    argv.push(server_bin.to_owned());
    argv.push("--root".to_owned());
    argv.push(root.to_owned());
    if let Some(c) = config {
        argv.push("--config".to_owned());
        argv.push(c.to_owned());
    }
    if let Some(d) = log_dir {
        argv.push("--log-dir".to_owned());
        argv.push(d.to_owned());
    }
    if let Some(b) = state_base {
        argv.push("--state-base".to_owned());
        argv.push(b.to_owned());
    }
    assert(text::views(argv@) =~= server_words(
        server_bin@,
        root@,
        crate::exec::str_view(config),
        crate::exec::str_view(log_dir),
        crate::exec::str_view(state_base),
    ));
    argv
}

/// The words of an option as they stand in the remote command line: the option
/// plain, its value quoted.
spec fn option_pieces(option: Seq<char>, value: Option<Seq<char>>) -> Seq<Seq<char>> {
    match value {
        Some(v) => seq![option, quote::single_quoted(v)],
        None => seq![],
    }
}

proof fn join_option(pieces: Seq<Seq<char>>, option: Seq<char>, value: Option<Seq<char>>)
    requires
        pieces.len() > 0,
    ensures
        text::join(pieces + option_pieces(option, value), seq![' ']) == text::join(
            pieces,
            seq![' '],
        ) + quoted_option(option, value),
{
    reveal_strlit(" ");
    assert(" "@ =~= seq![' ']);
    let all = pieces + option_pieces(option, value);
    match value {
        None => {
            assert(all =~= pieces);
            assert(text::join(pieces, seq![' ']) + Seq::<char>::empty() =~= text::join(
                pieces,
                seq![' '],
            ));
        },
        Some(v) => {
            assert(all.drop_last() =~= pieces.push(option));
            assert(pieces.push(option).drop_last() =~= pieces);
            assert(text::join(pieces.push(option), seq![' ']) == text::join(pieces, seq![' '])
                + seq![' '] + option);
            assert(text::join(all, seq![' ']) =~= text::join(pieces, seq![' ']) + quoted_option(
                option,
                value,
            ));
        },
    }
}

proof fn option_is_plain()
    ensures
        quote::all_plain("--root"@),
        quote::all_plain("--config"@),
        quote::all_plain("--log-dir"@),
        quote::all_plain("--state-base"@),
{
    reveal_strlit("--root");
    reveal_strlit("--config");
    reveal_strlit("--log-dir");
    reveal_strlit("--state-base");
}

/// The remote shell reads the command line back as the words that start the
/// server, whatever the arguments hold: starting it over ssh and on this machine
/// is the same.
pub proof fn remote_command_reads_back(
    bin: Seq<char>,
    root: Seq<char>,
    config: Option<Seq<char>>,
    log_dir: Option<Seq<char>>,
    state_base: Option<Seq<char>>,
)
    ensures
        quote::shell_words(remote_command(bin, root, config, log_dir, state_base)) == Some(
            server_words(bin, root, config, log_dir, state_base),
        ),
{
    option_is_plain();
    let p0 = seq![quote::single_quoted(bin)];
    assert(text::join(p0, seq![' ']) == quote::single_quoted(bin));
    join_option(p0, "--root"@, Some(root));
    let p1 = p0 + option_pieces("--root"@, Some(root));
    join_option(p1, "--config"@, config);
    let p2 = p1 + option_pieces("--config"@, config);
    join_option(p2, "--log-dir"@, log_dir);
    let p3 = p2 + option_pieces("--log-dir"@, log_dir);
    join_option(p3, "--state-base"@, state_base);
    let pieces = p3 + option_pieces("--state-base"@, state_base);
    let w1 = seq![bin, "--root"@, root];
    let w2 = w1 + option_words("--config"@, config);
    let w3 = w2 + option_words("--log-dir"@, log_dir);
    let words = w3 + option_words("--state-base"@, state_base);
    assert(words == server_words(bin, root, config, log_dir, state_base));
    assert(p1.len() == w1.len());
    assert forall|i: int| 0 <= i < w1.len() implies #[trigger] p1[i] == quote::word_of(w1[i])
        || p1[i] == quote::single_quoted(w1[i]) by {}
    pieces_extend(p1, w1, "--config"@, config);
    pieces_extend(p2, w2, "--log-dir"@, log_dir);
    pieces_extend(p3, w3, "--state-base"@, state_base);
    quote::quoted_words_read_back(pieces, words);
}

proof fn pieces_extend(
    pieces: Seq<Seq<char>>,
    words: Seq<Seq<char>>,
    option: Seq<char>,
    value: Option<Seq<char>>,
)
    requires
        quote::all_plain(option),
        pieces.len() == words.len(),
        forall|i: int|
            0 <= i < words.len() ==> #[trigger] pieces[i] == quote::word_of(words[i]) || pieces[i]
                == quote::single_quoted(words[i]),
    ensures
        ({
            let p = pieces + option_pieces(option, value);
            let w = words + option_words(option, value);
            &&& p.len() == w.len()
            &&& forall|i: int|
                0 <= i < w.len() ==> #[trigger] p[i] == quote::word_of(w[i]) || p[i]
                    == quote::single_quoted(w[i])
        }),
{
    let p = pieces + option_pieces(option, value);
    let w = words + option_words(option, value);
    assert forall|i: int| 0 <= i < w.len() implies #[trigger] p[i] == quote::word_of(w[i]) || p[i]
        == quote::single_quoted(w[i]) by {
        if i < words.len() {
            assert(p[i] == pieces[i]);
        }
    }
}

/// Words quoted into one command line.
pub open spec fn quoted_line(words: Seq<Seq<char>>) -> Seq<char> {
    text::join(words.map_values(|w: Seq<char>| quote::single_quoted(w)), seq![' '])
}

fn quote_line(words: &Vec<String>) -> (out: String)
    ensures
        out@ == quoted_line(text::views(words@)),
{
    let mut quoted: Vec<String> = Vec::new();
    let n: usize = words.len();
    let mut i: usize = 0;
    while i < n
        invariant
            i <= n,
            n == words@.len(),
            quoted@.len() == i,
            forall|k: int|
                0 <= k < i ==> (#[trigger] quoted@[k])@ == quote::single_quoted(words@[k]@),
        decreases n - i,
    {
        quoted.push(shell_quote(words[i].as_str()));
        i += 1;
    }
    proof {
        reveal_strlit(" ");
        assert(" "@ =~= seq![' ']);
        assert(text::views(quoted@) =~= text::views(words@).map_values(
            |w: Seq<char>| quote::single_quoted(w),
        ));
    }
    text::join_strings(&quoted, " ")
}

/// The remote shell reads a quoted line back as its words.
pub proof fn quoted_line_reads_back(words: Seq<Seq<char>>)
    requires
        words.len() > 0,
    ensures
        quote::shell_words(quoted_line(words)) == Some(words),
{
    let pieces = words.map_values(|w: Seq<char>| quote::single_quoted(w));
    assert forall|i: int| 0 <= i < words.len() implies #[trigger] pieces[i] == quote::word_of(
        words[i],
    ) || pieces[i] == quote::single_quoted(words[i]) by {}
    quote::quoted_words_read_back(pieces, words);
}

/// Where a workspace's server runs.
#[derive(Debug, PartialEq, Eq)]
pub enum Endpoint {
    Ssh {
        host: String,
        remote_bin: String,
        root: String,
        state_base: Option<String>,
        config: Option<String>,
    },
    Local {
        server_bin: String,
        root: String,
        state_base: Option<String>,
        config: Option<String>,
    },
}

pub(crate) fn as_str(s: &Option<String>) -> (out: Option<&str>)
    ensures
        crate::exec::str_view(out) == crate::fs_ops::chars_in(*s),
{
    match s {
        Some(s) => Some(s.as_str()),
        None => None,
    }
}

impl Endpoint {
    /// The command that starts the endpoint's server.
    pub open spec fn command(self) -> Seq<Seq<char>> {
        match self {
            Endpoint::Ssh { host, remote_bin, root, state_base, config } => seq![
                "ssh"@,
                host@,
                remote_command(
                    remote_bin@,
                    root@,
                    crate::fs_ops::chars_in(config),
                    None,
                    crate::fs_ops::chars_in(state_base),
                ),
            ],
            Endpoint::Local { server_bin, root, state_base, config } => server_words(
                server_bin@,
                root@,
                crate::fs_ops::chars_in(config),
                None,
                crate::fs_ops::chars_in(state_base),
            ),
        }
    }

    /// The command that starts the endpoint's server.
    pub fn control_argv(&self) -> (argv: Vec<String>)
        ensures
            text::views(argv@) == self.command(),
    {
        match self {
            Endpoint::Ssh { host, remote_bin, root, state_base, config } => ssh_server_argv(
                host.as_str(),
                remote_bin.as_str(),
                root.as_str(),
                as_str(config),
                None,
                as_str(state_base),
            ),
            Endpoint::Local { server_bin, root, state_base, config } => local_server_argv(
                server_bin.as_str(),
                root.as_str(),
                as_str(config),
                None,
                as_str(state_base),
            ),
        }
    }

    /// The words of a command of the endpoint's server, as they are started: as
    /// they are on this machine, quoted into one command line over ssh.
    pub open spec fn started(self, words: Seq<Seq<char>>) -> Seq<Seq<char>> {
        match self {
            Endpoint::Ssh { host, .. } => seq!["ssh"@, host@, quoted_line(words)],
            Endpoint::Local { .. } => words,
        }
    }

    fn start(&self, words: Vec<String>) -> (argv: Vec<String>)
        ensures
            text::views(argv@) == self.started(text::views(words@)),
    {
        match self {
            Endpoint::Ssh { host, .. } => {
                let line = quote_line(&words);
                let ghost shown = line@;
                let mut argv: Vec<String> = Vec::new();
                argv.push("ssh".to_owned());
                argv.push(host.clone());
                argv.push(line);
                assert(text::views(argv@) =~= seq!["ssh"@, host@, shown]);
                argv
            },
            Endpoint::Local { .. } => words,
        }
    }

    /// The server binary of the endpoint.
    pub open spec fn spec_bin(self) -> Seq<char> {
        match self {
            Endpoint::Ssh { remote_bin, .. } => remote_bin@,
            Endpoint::Local { server_bin, .. } => server_bin@,
        }
    }

    /// The base directory for the server's state, where it is not the usual one.
    pub open spec fn spec_state_base(self) -> Option<Seq<char>> {
        match self {
            Endpoint::Ssh { state_base, .. } => crate::fs_ops::chars_in(state_base),
            Endpoint::Local { state_base, .. } => crate::fs_ops::chars_in(state_base),
        }
    }

    fn bin(&self) -> (out: &str)
        ensures
            out@ == self.spec_bin(),
    {
        match self {
            Endpoint::Ssh { remote_bin, .. } => remote_bin.as_str(),
            Endpoint::Local { server_bin, .. } => server_bin.as_str(),
        }
    }

    /// The command that receives the bytes of an upload into its staging file.
    pub fn receive_argv(&self, staging: &str, size: u64) -> (argv: Vec<String>)
        ensures
            text::views(argv@) == self.started(
                seq![
                    self.spec_bin(),
                    "--transfer-receive"@,
                    staging@,
                    "--expect-size"@,
                    text::decimal(size as nat),
                ],
            ),
    {
        let mut words: Vec<String> = Vec::new();
        words.push(self.bin().to_owned());
        words.push("--transfer-receive".to_owned());
        words.push(staging.to_owned());
        words.push("--expect-size".to_owned());
        words.push(text::decimal_u64(size));
        assert(text::views(words@) =~= seq![
            self.spec_bin(),
            "--transfer-receive"@,
            staging@,
            "--expect-size"@,
            text::decimal(size as nat),
        ]);
        self.start(words)
    }

    /// The command that sends the bytes of a download.
    pub fn send_argv(&self, path: &str) -> (argv: Vec<String>)
        ensures
            text::views(argv@) == self.started(
                seq![self.spec_bin(), "--transfer-send"@, path@, "--root"@, self.spec_root()]
                    + option_words("--state-base"@, self.spec_state_base()),
            ),
    {
        let mut words: Vec<String> = Vec::new();
        words.push(self.bin().to_owned());
        words.push("--transfer-send".to_owned());
        words.push(path.to_owned());
        words.push("--root".to_owned());
        words.push(self.root().to_owned());
        let state_base = match self {
            Endpoint::Ssh { state_base, .. } => state_base,
            Endpoint::Local { state_base, .. } => state_base,
        };
        if let Some(b) = state_base {
            words.push("--state-base".to_owned());
            words.push(b.clone());
        }
        assert(text::views(words@) =~= seq![
            self.spec_bin(),
            "--transfer-send"@,
            path@,
            "--root"@,
            self.spec_root(),
        ] + option_words("--state-base"@, self.spec_state_base()));
        self.start(words)
    }

    /// The root of the endpoint's workspace.
    pub open spec fn spec_root(self) -> Seq<char> {
        match self {
            Endpoint::Ssh { root, .. } => root@,
            Endpoint::Local { root, .. } => root@,
        }
    }

    /// The host of the endpoint, as it is shown.
    pub open spec fn spec_host(self) -> Seq<char> {
        match self {
            Endpoint::Ssh { host, .. } => host@,
            Endpoint::Local { .. } => "(local)"@,
        }
    }

    pub fn root(&self) -> (out: &str)
        ensures
            out@ == self.spec_root(),
    {
        match self {
            Endpoint::Ssh { root, .. } => root.as_str(),
            Endpoint::Local { root, .. } => root.as_str(),
        }
    }

    pub fn host(&self) -> (out: &str)
        ensures
            out@ == self.spec_host(),
    {
        match self {
            Endpoint::Ssh { host, .. } => host.as_str(),
            Endpoint::Local { .. } => "(local)",
        }
    }
}

/// Where a message goes.
#[derive(Debug, Clone, Copy, PartialEq, Eq, Structural)]
pub enum Route {
    /// To the stream of its request, which ends with it where `last` says so.
    Stream { last: bool },
    /// To the one who waits for the reply.
    Reply,
    /// To nobody.
    Unhandled,
}

/// The requests of a connection that wait for messages.
pub struct Client {
    replies: StringHashMap<()>,
    streams: StringHashMap<()>,
    closed: bool,
}

/// What a client keeps of its requests.
pub struct Waiting {
    /// The requests that wait for one reply.
    pub replies: Set<Seq<char>>,
    /// The requests that wait for a stream of messages.
    pub streams: Set<Seq<char>>,
    pub closed: bool,
}

impl View for Client {
    type V = Waiting;

    closed spec fn view(&self) -> Waiting {
        Waiting { replies: self.replies@.dom(), streams: self.streams@.dom(), closed: self.closed }
    }
}

impl Waiting {
    /// Where a message of request `id` goes.
    pub open spec fn route(self, id: Seq<char>, terminal: bool) -> Route {
        if self.streams.contains(id) {
            Route::Stream { last: terminal }
        } else if self.replies.contains(id) {
            Route::Reply
        } else {
            Route::Unhandled
        }
    }

    /// What is kept after a message of request `id` was handed on: a stream stays
    /// until its terminal message, a reply goes with its message.
    pub open spec fn after(self, id: Seq<char>, terminal: bool) -> Waiting {
        if self.streams.contains(id) {
            if terminal {
                Waiting { streams: self.streams.remove(id), ..self }
            } else {
                self
            }
        } else {
            Waiting { replies: self.replies.remove(id), ..self }
        }
    }
}

impl Client {
    pub fn new() -> (c: Self)
        ensures
            c@.replies == Set::<Seq<char>>::empty(),
            c@.streams == Set::<Seq<char>>::empty(),
            !c@.closed,
    {
        let c = Client { replies: StringHashMap::new(), streams: StringHashMap::new(), closed: false };
        assert(c@.replies =~= Set::<Seq<char>>::empty());
        assert(c@.streams =~= Set::<Seq<char>>::empty());
        c
    }

    /// Whether the connection has ended. Once it has, it stays so.
    pub fn is_closed(&self) -> (yes: bool)
        ensures
            yes == self@.closed,
    {
        self.closed
    }

    /// Waits for the reply to a request; on a connection that has ended it fails
    /// at once.
    pub fn expect_reply(&mut self, id: &str) -> (out: Result<(), ClientError>)
        ensures
            out is Ok <==> !old(self)@.closed,
            out matches Err(e) ==> e is Closed,
            final(self)@.closed == old(self)@.closed,
            final(self)@.streams == old(self)@.streams,
            final(self)@.replies == (if old(self)@.closed {
                old(self)@.replies
            } else {
                old(self)@.replies.insert(id@)
            }),
    {
        if self.closed {
            return Err(ClientError::Closed);
        }
        self.replies.insert(id.to_owned(), ());
        assert(self@.replies =~= old(self)@.replies.insert(id@));
        Ok(())
    }

    /// Waits for the messages of a streaming request; on a connection that has
    /// ended it fails at once.
    pub fn expect_stream(&mut self, id: &str) -> (out: Result<(), ClientError>)
        ensures
            out is Ok <==> !old(self)@.closed,
            out matches Err(e) ==> e is Closed,
            final(self)@.closed == old(self)@.closed,
            final(self)@.replies == old(self)@.replies,
            final(self)@.streams == (if old(self)@.closed {
                old(self)@.streams
            } else {
                old(self)@.streams.insert(id@)
            }),
    {
        if self.closed {
            return Err(ClientError::Closed);
        }
        self.streams.insert(id.to_owned(), ());
        assert(self@.streams =~= old(self)@.streams.insert(id@));
        Ok(())
    }

    /// Stops waiting for a request.
    pub fn give_up(&mut self, id: &str)
        ensures
            final(self)@ == (Waiting {
                replies: old(self)@.replies.remove(id@),
                streams: old(self)@.streams.remove(id@),
                closed: old(self)@.closed,
            }),
    {
        self.replies.remove(id);
        self.streams.remove(id);
        assert(self@.replies =~= old(self)@.replies.remove(id@));
        assert(self@.streams =~= old(self)@.streams.remove(id@));
    }

    /// Decides where a message goes.
    pub fn route(&mut self, msg: &ServerMessage) -> (route: Route)
        ensures
            route == old(self)@.route(msg.spec_request_id(), msg.spec_is_terminal()),
            final(self)@ == old(self)@.after(msg.spec_request_id(), msg.spec_is_terminal()),
    {
        let id = msg.request_id().as_str();
        let last = msg.is_terminal();
        if self.streams.contains_key(id) {
            if last {
                self.streams.remove(id);
                assert(self@.streams =~= old(self)@.streams.remove(id@));
            }
            return Route::Stream { last };
        }
        let waits = self.replies.contains_key(id);
        self.replies.remove(id);
        assert(self@.replies =~= old(self)@.replies.remove(id@));
        if waits {
            Route::Reply
        } else {
            Route::Unhandled
        }
    }

    /// Ends the connection: nobody waits any longer, and nobody will.
    pub fn close(&mut self)
        ensures
            final(self)@ == (Waiting {
                replies: Set::<Seq<char>>::empty(),
                streams: Set::<Seq<char>>::empty(),
                closed: true,
            }),
    {
        self.replies.clear();
        self.streams.clear();
        self.closed = true;
        assert(self@.replies =~= Set::<Seq<char>>::empty());
        assert(self@.streams =~= Set::<Seq<char>>::empty());
    }
}

/// A terminal message ends the wait of its request and of no other: a second one
/// goes to nobody.
pub proof fn terminal_messages_end_the_wait(w: Waiting, id: Seq<char>, other: Seq<char>)
    requires
        !(w.streams.contains(id) && w.replies.contains(id)),
        other != id,
    ensures
        w.after(id, true).route(id, true) == Route::Unhandled,
        w.after(id, true).route(other, true) == w.route(other, true),
        w.after(id, true).route(other, false) == w.route(other, false),
{
}

/// The output of a command keeps its stream open until the terminal message.
pub proof fn output_keeps_the_stream(w: Waiting, id: Seq<char>)
    requires
        w.streams.contains(id),
    ensures
        w.route(id, false) == (Route::Stream { last: false }),
        w.after(id, false) == w,
{
}

/// Whether `out` is the failure of a reply of another kind than the request asked
/// for.
pub open spec fn is_unexpected(e: ClientError, op: Seq<char>) -> bool {
    e.refuses(ErrorCode::InvalidRequest, "unexpected result body for "@ + op)
}

/// Whether `out` is the failure of a message that is no result.
pub open spec fn is_failure(e: ClientError, msg: ServerMessage) -> bool {
    match msg {
        ServerMessage::Error { error, .. } => e == ClientError::Server(error),
        ServerMessage::ExecEvent(_) => e.refuses(
            ErrorCode::InvalidRequest,
            "unexpected exec event on reply channel"@,
        ),
        ServerMessage::Result { .. } => false,
    }
}

/// The result that a reply carries, or the failure.
pub fn unpack(msg: ServerMessage) -> (out: Result<ResultBody, ClientError>)
    ensures
        match out {
            Ok(body) => msg matches ServerMessage::Result { result, .. } && result == body,
            Err(e) => is_failure(e, msg),
        },
{
    match msg {
        ServerMessage::Result { result, .. } => Ok(result),
        ServerMessage::Error { error, .. } => Err(ClientError::Server(error)),
        ServerMessage::ExecEvent(_) => Err(
            ClientError::Server(
                ProtocolError::new(
                    ErrorCode::InvalidRequest,
                    "unexpected exec event on reply channel",
                ),
            ),
        ),
    }
}

fn unexpected(op: &str) -> (e: ClientError)
    ensures
        is_unexpected(e, op@),
{
    let m = text::concat("unexpected result body for ", op);
    ClientError::Server(ProtocolError::new(ErrorCode::InvalidRequest, m.as_str()))
}

/// What a `list` request is told by its reply.
pub fn list_reply(msg: ServerMessage) -> (out: Result<ListResult, ClientError>)
    ensures
        match msg {
            ServerMessage::Result { result: ResultBody::List(r), .. } => out == Ok::<
                ListResult,
                ClientError,
            >(r),
            ServerMessage::Result { .. } => out matches Err(e) && is_unexpected(e, "list"@),
            _ => out matches Err(e) && is_failure(e, msg),
        },
{
    match unpack(msg) {
        Ok(ResultBody::List(r)) => Ok(r),
        Ok(_) => Err(unexpected("list")),
        Err(e) => Err(e),
    }
}

/// What a `stat` request is told by its reply.
pub fn stat_reply(msg: ServerMessage) -> (out: Result<FileEntry, ClientError>)
    ensures
        match msg {
            ServerMessage::Result { result: ResultBody::Stat { stat }, .. } => out == Ok::<
                FileEntry,
                ClientError,
            >(stat),
            ServerMessage::Result { .. } => out matches Err(e) && is_unexpected(e, "stat"@),
            _ => out matches Err(e) && is_failure(e, msg),
        },
{
    match unpack(msg) {
        Ok(ResultBody::Stat { stat }) => Ok(stat),
        Ok(_) => Err(unexpected("stat")),
        Err(e) => Err(e),
    }
}

/// What a `read` request is told by its reply.
pub fn read_reply(msg: ServerMessage) -> (out: Result<ReadResult, ClientError>)
    ensures
        match msg {
            ServerMessage::Result { result: ResultBody::Read(r), .. } => out == Ok::<
                ReadResult,
                ClientError,
            >(r),
            ServerMessage::Result { .. } => out matches Err(e) && is_unexpected(e, "read"@),
            _ => out matches Err(e) && is_failure(e, msg),
        },
{
    match unpack(msg) {
        Ok(ResultBody::Read(r)) => Ok(r),
        Ok(_) => Err(unexpected("read")),
        Err(e) => Err(e),
    }
}

/// What a `undo` request is told by its reply.
pub fn undo_reply(msg: ServerMessage) -> (out: Result<UndoResult, ClientError>)
    ensures
        match msg {
            ServerMessage::Result { result: ResultBody::Undo(r), .. } => out == Ok::<
                UndoResult,
                ClientError,
            >(r),
            ServerMessage::Result { .. } => out matches Err(e) && is_unexpected(e, "undo"@),
            _ => out matches Err(e) && is_failure(e, msg),
        },
{
    match unpack(msg) {
        Ok(ResultBody::Undo(r)) => Ok(r),
        Ok(_) => Err(unexpected("undo")),
        Err(e) => Err(e),
    }
}

/// What a `history` request is told by its reply.
pub fn history_reply(msg: ServerMessage) -> (out: Result<Vec<AnyOperationRecord>, ClientError>)
    ensures
        match msg {
            ServerMessage::Result { result: ResultBody::History { operations }, .. } => out == Ok::<
                Vec<AnyOperationRecord>,
                ClientError,
            >(operations),
            ServerMessage::Result { .. } => out matches Err(e) && is_unexpected(e, "history"@),
            _ => out matches Err(e) && is_failure(e, msg),
        },
{
    match unpack(msg) {
        Ok(ResultBody::History { operations }) => Ok(operations),
        Ok(_) => Err(unexpected("history")),
        Err(e) => Err(e),
    }
}

/// What a `operation_get` request is told by its reply.
pub fn operation_get_reply(msg: ServerMessage) -> (out: Result<OperationDetails, ClientError>)
    ensures
        match msg {
            ServerMessage::Result { result: ResultBody::Operation(r), .. } => out == Ok::<
                OperationDetails,
                ClientError,
            >(r),
            ServerMessage::Result { .. } => out matches Err(e) && is_unexpected(e, "operation_get"@),
            _ => out matches Err(e) && is_failure(e, msg),
        },
{
    match unpack(msg) {
        Ok(ResultBody::Operation(r)) => Ok(r),
        Ok(_) => Err(unexpected("operation_get")),
        Err(e) => Err(e),
    }
}

/// What a `gc` request is told by its reply.
pub fn gc_reply(msg: ServerMessage) -> (out: Result<GcResult, ClientError>)
    ensures
        match msg {
            ServerMessage::Result { result: ResultBody::Gc(r), .. } => out == Ok::<
                GcResult,
                ClientError,
            >(r),
            ServerMessage::Result { .. } => out matches Err(e) && is_unexpected(e, "gc"@),
            _ => out matches Err(e) && is_failure(e, msg),
        },
{
    match unpack(msg) {
        Ok(ResultBody::Gc(r)) => Ok(r),
        Ok(_) => Err(unexpected("gc")),
        Err(e) => Err(e),
    }
}

/// What a `request_status` request is told by its reply.
pub fn request_status_reply(msg: ServerMessage) -> (out: Result<RequestStatusResult, ClientError>)
    ensures
        match msg {
            ServerMessage::Result { result: ResultBody::RequestStatus(r), .. } => out == Ok::<
                RequestStatusResult,
                ClientError,
            >(r),
            ServerMessage::Result { .. } => out matches Err(e) && is_unexpected(e, "request_status"@),
            _ => out matches Err(e) && is_failure(e, msg),
        },
{
    match unpack(msg) {
        Ok(ResultBody::RequestStatus(r)) => Ok(r),
        Ok(_) => Err(unexpected("request_status")),
        Err(e) => Err(e),
    }
}

/// What a `upload_prepare` request is told by its reply.
pub fn upload_prepare_reply(msg: ServerMessage) -> (out: Result<UploadPrepareResult, ClientError>)
    ensures
        match msg {
            ServerMessage::Result { result: ResultBody::UploadPrepare(r), .. } => out == Ok::<
                UploadPrepareResult,
                ClientError,
            >(r),
            ServerMessage::Result { .. } => out matches Err(e) && is_unexpected(e, "upload_prepare"@),
            _ => out matches Err(e) && is_failure(e, msg),
        },
{
    match unpack(msg) {
        Ok(ResultBody::UploadPrepare(r)) => Ok(r),
        Ok(_) => Err(unexpected("upload_prepare")),
        Err(e) => Err(e),
    }
}

/// What a `upload_abort` request is told by its reply.
pub fn upload_abort_reply(msg: ServerMessage) -> (out: Result<String, ClientError>)
    ensures
        match msg {
            ServerMessage::Result { result: ResultBody::UploadAbort { transfer_id }, .. } => out == Ok::<
                String,
                ClientError,
            >(transfer_id),
            ServerMessage::Result { .. } => out matches Err(e) && is_unexpected(e, "upload_abort"@),
            _ => out matches Err(e) && is_failure(e, msg),
        },
{
    match unpack(msg) {
        Ok(ResultBody::UploadAbort { transfer_id }) => Ok(transfer_id),
        Ok(_) => Err(unexpected("upload_abort")),
        Err(e) => Err(e),
    }
}

/// What a `write`, `patch` or `delete` request is told by its reply.
pub fn mutation_reply(op: &str, msg: ServerMessage) -> (out: Result<WriteOrPatchResult, ClientError>)
    ensures
        match msg {
            ServerMessage::Result { result: ResultBody::WriteOrPatch(r), .. } => out == Ok::<
                WriteOrPatchResult,
                ClientError,
            >(r),
            ServerMessage::Result { .. } => out matches Err(e) && is_unexpected(e, op@),
            _ => out matches Err(e) && is_failure(e, msg),
        },
{
    match unpack(msg) {
        Ok(ResultBody::WriteOrPatch(r)) => Ok(r),
        Ok(_) => Err(unexpected(op)),
        Err(e) => Err(e),
    }
}

/// What an `upload_commit` or `download_record` request is told by its reply.
pub fn transfer_reply(op: &str, msg: ServerMessage) -> (out: Result<TransferResult, ClientError>)
    ensures
        match msg {
            ServerMessage::Result { result: ResultBody::Transfer(r), .. } => out == Ok::<
                TransferResult,
                ClientError,
            >(r),
            ServerMessage::Result { .. } => out matches Err(e) && is_unexpected(e, op@),
            _ => out matches Err(e) && is_failure(e, msg),
        },
{
    match unpack(msg) {
        Ok(ResultBody::Transfer(r)) => Ok(r),
        Ok(_) => Err(unexpected(op)),
        Err(e) => Err(e),
    }
}

/// What a message means to the one who runs a command.
pub enum ExecStep {
    /// A piece of output; more follows.
    Event(ExecEventKind),
    /// The command is over, or cannot be followed any longer.
    Done(Result<ExecResult, ClientError>),
}

/// What the next message of an exec stream means; none comes where the connection
/// has ended.
pub fn exec_step(msg: Option<ServerMessage>) -> (step: ExecStep)
    ensures
        match msg {
            None => step == ExecStep::Done(Err(ClientError::Closed)),
            Some(ServerMessage::ExecEvent(e)) => step == ExecStep::Event(e.event),
            Some(ServerMessage::Result { result: ResultBody::Exec(r), .. }) => step
                == ExecStep::Done(Ok(r)),
            Some(ServerMessage::Result { .. }) => step == ExecStep::Done(Err(ClientError::Closed)),
            Some(ServerMessage::Error { error, .. }) => step == ExecStep::Done(
                Err(ClientError::Server(error)),
            ),
        },
{
    match msg {
        None => ExecStep::Done(Err(ClientError::Closed)),
        Some(ServerMessage::ExecEvent(e)) => ExecStep::Event(e.event),
        Some(ServerMessage::Result { result: ResultBody::Exec(r), .. }) => ExecStep::Done(Ok(r)),
        Some(ServerMessage::Result { .. }) => ExecStep::Done(Err(ClientError::Closed)),
        Some(ServerMessage::Error { error, .. }) => ExecStep::Done(
            Err(ClientError::Server(error)),
        ),
    }
}

/// The code that a program exits with which ran a remote command: the command's
/// own, or -1 where it was killed.
pub open spec fn exit_status(t: ExecTermination) -> int {
    match t {
        ExecTermination::Exited { code } => code as int,
        ExecTermination::TimedOut => -1,
    }
}

/// The code that a program exits with which ran a remote command.
pub fn exit_code_of(r: &ExecResult) -> (code: i32)
    ensures
        code == exit_status(r.termination),
{
    match r.termination {
        ExecTermination::Exited { code } => code,
        ExecTermination::TimedOut => -1,
    }
}

/// The messages of an exec stream, in the order in which they came.
pub struct ExecStream {
    pub events: Vec<ServerMessage>,
}

/// What a stream amounts to: its two texts, and the exit that was told last.
pub struct Collected {
    pub stdout: Seq<char>,
    pub stderr: Seq<char>,
    pub exit: Option<(i32, Seq<char>)>,
}

/// What the messages up to the first terminal one amount to.
pub open spec fn collected(events: Seq<ServerMessage>) -> Collected
    decreases events.len(),
{
    let nothing = Collected {
        stdout: Seq::<char>::empty(),
        stderr: Seq::<char>::empty(),
        exit: None,
    };
    if events.len() == 0 {
        nothing
    } else {
        let rest = collected(events.drop_first());
        match events[0] {
            ServerMessage::ExecEvent(e) => match e.event {
                ExecEventKind::Stdout { data } => Collected { stdout: data@ + rest.stdout, ..rest },
                ExecEventKind::Stderr { data } => Collected { stderr: data@ + rest.stderr, ..rest },
                ExecEventKind::Exit { exit_code, operation_id } => if rest.exit is Some {
                    rest
                } else {
                    Collected { exit: Some((exit_code, operation_id@)), ..rest }
                },
            },
            _ => nothing,
        }
    }
}

impl ExecStream {
    /// The output, the exit code and the operation id of a stream.
    pub fn collect(self) -> (out: (String, String, Option<i32>, Option<OperationId>))
        ensures
            out.0@ == collected(self.events@).stdout,
            out.1@ == collected(self.events@).stderr,
            match collected(self.events@).exit {
                Some((code, id)) => out.2 == Some(code) && crate::fs_ops::chars_in(out.3) == Some(
                    id,
                ),
                None => out.2 is None && out.3 is None,
            },
    {
        let mut stdout = String::new();
        let mut stderr = String::new();
        let mut exit: Option<i32> = None;
        let mut op: Option<OperationId> = None;
        let n: usize = self.events.len();
        let mut i: usize = 0;
        let ghost all = collected(self.events@);
        proof {
            assert(self.events@.skip(0) =~= self.events@);
            assert(stdout@ + all.stdout =~= all.stdout);
            assert(stderr@ + all.stderr =~= all.stderr);
        }
        while i < n
            invariant
                i <= n,
                n == self.events@.len(),
                all == collected(self.events@),
                all.stdout == stdout@ + collected(self.events@.skip(i as int)).stdout,
                all.stderr == stderr@ + collected(self.events@.skip(i as int)).stderr,
                exit is Some <==> op is Some,
                all.exit == (if collected(self.events@.skip(i as int)).exit is Some {
                    collected(self.events@.skip(i as int)).exit
                } else if exit is Some {
                    Some((exit->0, op->0@))
                } else {
                    None
                }),
            decreases n - i,
        {
            let ghost rest = self.events@.skip(i as int);
            proof {
                assert(rest[0] == self.events@[i as int]);
                assert(rest.drop_first() =~= self.events@.skip(i + 1));
            }
            match &self.events[i] {
                ServerMessage::ExecEvent(e) => match &e.event {
                    ExecEventKind::Stdout { data } => {
                        let ghost before = stdout@;
                        stdout.append(data.as_str());
                        proof {
                            let more = collected(rest.drop_first()).stdout;
                            assert(before + (data@ + more) =~= (before + data@) + more);
                        }
                    },
                    ExecEventKind::Stderr { data } => {
                        let ghost before = stderr@;
                        stderr.append(data.as_str());
                        proof {
                            let more = collected(rest.drop_first()).stderr;
                            assert(before + (data@ + more) =~= (before + data@) + more);
                        }
                    },
                    ExecEventKind::Exit { exit_code, operation_id } => {
                        exit = Some(*exit_code);
                        op = Some(operation_id.clone());
                    },
                },
                _ => {
                    assert(stdout@ + Seq::<char>::empty() =~= stdout@);
                    assert(stderr@ + Seq::<char>::empty() =~= stderr@);
                    return (stdout, stderr, exit, op);
                },
            }
            i += 1;
        }
        assert(self.events@.skip(n as int) =~= Seq::<ServerMessage>::empty());
        assert(stdout@ + Seq::<char>::empty() =~= stdout@);
        assert(stderr@ + Seq::<char>::empty() =~= stderr@);
        (stdout, stderr, exit, op)
    }
}

/// A server is started with its root and with each option that was given, followed by
/// its value, and with nothing else.
pub proof fn servers_get_their_options(
    bin: Seq<char>,
    root: Seq<char>,
    config: Option<Seq<char>>,
    log_dir: Option<Seq<char>>,
    state_base: Option<Seq<char>>,
)
    ensures
        ({
            let words = server_words(bin, root, config, log_dir, state_base);
            let a: int = 3;
            let b: int = a + if config is Some { 2int } else { 0 };
            let c: int = b + if log_dir is Some { 2int } else { 0 };
            &&& words[0] == bin && words[1] == "--root"@ && words[2] == root
            &&& config matches Some(v) ==> words[a] == "--config"@ && words[a + 1] == v
            &&& log_dir matches Some(v) ==> words[b] == "--log-dir"@ && words[b + 1] == v
            &&& state_base matches Some(v) ==> words[c] == "--state-base"@ && words[c + 1] == v
            &&& words.len() == c + if state_base is Some { 2int } else { 0 }
        }),
{
}

/// A message goes to the one who waits for it: to the stream of its request, which ends
/// with a terminal message, else to the one who waits for the reply, else to nobody.
/// Nobody else is kept from waiting.
pub proof fn messages_go_to_who_waits(w: Waiting, id: Seq<char>, terminal: bool, other: Seq<char>)
    ensures
        w.streams.contains(id) ==> w.route(id, terminal) == (Route::Stream { last: terminal }),
        !w.streams.contains(id) && w.replies.contains(id) ==> w.route(id, terminal)
            == Route::Reply,
        !w.streams.contains(id) && !w.replies.contains(id) ==> w.route(id, terminal)
            == Route::Unhandled,
        w.streams.contains(id) && terminal ==> !w.after(id, terminal).streams.contains(id),
        w.streams.contains(id) && !terminal ==> w.after(id, terminal).streams.contains(id),
        !w.streams.contains(id) ==> !w.after(id, terminal).replies.contains(id),
        other != id ==> (w.after(id, terminal).streams.contains(other) <==> w.streams.contains(
            other,
        )) && (w.after(id, terminal).replies.contains(other) <==> w.replies.contains(other)),
        w.after(id, terminal).closed == w.closed,
{
}

/// What a stream of events amounts to: the text of each event on its own side, in the
/// order in which they came, and the exit that was told last; what follows a terminal
/// message does not count.
pub proof fn collecting_keeps_every_event(
    before: Seq<ServerMessage>,
    event: crate::messages::ExecEvent,
    end: ServerMessage,
    behind: Seq<ServerMessage>,
)
    requires
        forall|i: int| 0 <= i < before.len() ==> (#[trigger] before[i]) is ExecEvent,
        !(end is ExecEvent),
    ensures
        collected(Seq::empty()).stdout.len() == 0,
        collected(Seq::empty()).stderr.len() == 0,
        collected(Seq::empty()).exit is None,
        ({
            let old = collected(before);
            let new = collected(before.push(ServerMessage::ExecEvent(event)));
            match event.event {
                ExecEventKind::Stdout { data } => new.stdout == old.stdout + data@ && new.stderr
                    == old.stderr && new.exit == old.exit,
                ExecEventKind::Stderr { data } => new.stderr == old.stderr + data@ && new.stdout
                    == old.stdout && new.exit == old.exit,
                ExecEventKind::Exit { exit_code, operation_id } => new.exit == Some(
                    (exit_code, operation_id@),
                ) && new.stdout == old.stdout && new.stderr == old.stderr,
            }
        }),
        collected(before.push(end) + behind).stdout == collected(before).stdout,
        collected(before.push(end) + behind).stderr == collected(before).stderr,
        collected(before.push(end) + behind).exit == collected(before).exit,
    decreases before.len(),
{
    let message = ServerMessage::ExecEvent(event);
    let more = before.push(message);
    let ended = before.push(end) + behind;
    reveal_with_fuel(collected, 2);
    if before.len() == 0 {
        assert(more.drop_first() =~= Seq::<ServerMessage>::empty());
        assert(more[0] == message);
        assert(ended[0] == end);
        assert(before =~= Seq::<ServerMessage>::empty());
        match event.event {
            ExecEventKind::Stdout { data } => {
                assert(data@ + Seq::<char>::empty() =~= Seq::<char>::empty() + data@);
            },
            ExecEventKind::Stderr { data } => {
                assert(data@ + Seq::<char>::empty() =~= Seq::<char>::empty() + data@);
            },
            _ => {},
        }
    } else {
        let rest = before.drop_first();
        assert forall|i: int| 0 <= i < rest.len() implies (#[trigger] rest[i]) is ExecEvent by {
            assert(rest[i] == before[i + 1]);
        }
        collecting_keeps_every_event(rest, event, end, behind);
        assert(more.drop_first() =~= rest.push(message));
        assert(more[0] == before[0]);
        assert(ended.drop_first() =~= rest.push(end) + behind);
        assert(ended[0] == before[0]);
        assert(before[0] is ExecEvent);
        let old = collected(rest);
        if let ServerMessage::ExecEvent(e) = before[0] {
            if let ExecEventKind::Stdout { data: first } = e.event {
                if let ExecEventKind::Stdout { data } = event.event {
                    assert(first@ + (old.stdout + data@) =~= first@ + old.stdout + data@);
                }
            }
            if let ExecEventKind::Stderr { data: first } = e.event {
                if let ExecEventKind::Stderr { data } = event.event {
                    assert(first@ + (old.stderr + data@) =~= first@ + old.stderr + data@);
                }
            }
        }
    }
}

/// The client exits as the command did: with the code that the command exited with, and
/// with -1 where it was killed.
pub proof fn exit_codes_are_passed_on(o: crate::exec::ExecOutcome)
    ensures
        !o.timed_out ==> exit_status(crate::exec::termination_of(o)) == o.exit_code,
        o.timed_out ==> exit_status(crate::exec::termination_of(o)) == -1,
{
}

/// An endpoint's server is started with the endpoint's own binary, root, configuration
/// and state base: as these words on this machine, and over ssh on its host as a line
/// that the shell there reads as these words. So is every other command of it.
pub proof fn endpoints_start_their_server(e: Endpoint, words: Seq<Seq<char>>)
    requires
        words.len() > 0,
    ensures
        e matches Endpoint::Local { server_bin, root, state_base, config } ==> {
            &&& e.command() == server_words(
                server_bin@,
                root@,
                crate::fs_ops::chars_in(config),
                None,
                crate::fs_ops::chars_in(state_base),
            )
            &&& e.started(words) == words
            &&& e.spec_bin() == server_bin@ && e.spec_root() == root@
        },
        e matches Endpoint::Ssh { host, remote_bin, root, state_base, config } ==> {
            &&& e.command().len() == 3 && e.command()[0] == "ssh"@ && e.command()[1] == host@
            &&& quote::shell_words(e.command()[2]) == Some(
                server_words(
                    remote_bin@,
                    root@,
                    crate::fs_ops::chars_in(config),
                    None,
                    crate::fs_ops::chars_in(state_base),
                ),
            )
            &&& e.started(words).len() == 3 && e.started(words)[0] == "ssh"@
            &&& e.started(words)[1] == host@
            &&& quote::shell_words(e.started(words)[2]) == Some(words)
            &&& e.spec_bin() == remote_bin@ && e.spec_root() == root@ && e.spec_host() == host@
        },
{
    quoted_line_reads_back(words);
    if let Endpoint::Ssh { remote_bin, root, state_base, config, .. } = e {
        remote_command_reads_back(
            remote_bin@,
            root@,
            crate::fs_ops::chars_in(config),
            None,
            crate::fs_ops::chars_in(state_base),
        );
    }
}

/// A refusal of the server is passed on as it is, and a message that does not belong to a
/// reply is a failure, never a result.
pub proof fn refusals_are_passed_on(e: ClientError, msg: ServerMessage, op: Seq<char>)
    ensures
        is_failure(e, msg) ==> !(msg is Result),
        is_failure(e, msg) ==> (msg matches ServerMessage::Error { error, .. } ==> e
            == ClientError::Server(error)),
        is_failure(e, msg) || is_unexpected(e, op) ==> e is Server,
{
}

}
