# agent-remote

A remote workspace for coding agents: code and the environment it runs in stay on
a server, and a client reaches them over an SSH connection with a small set of
file and command requests, one JSON object per line.

The library under `src/` holds the rules of the protocol, written and proved in
Verus. It does no I/O. What was seen of the file system, what a process printed
and whether a log line reached the disk are handed in as values, and decisions
come out as values. The programs under `app/` look, act and report.

| Module | What it decides |
|--------|-----------------|
| `workspace` | which paths a request may name, and where state is kept |
| `fs_ops`, `listing`, `patch`, `undo` | what file requests are answered, and what a mutation puts in place |
| `exec`, `config`, `quote` | whether and how a command is started, its output and its end |
| `utf8`, `text`, `hash`, `ids` | decoding streams, text, content hashes, identifiers |
| `store`, `recovery`, `server` | what is remembered, replayed, pruned and recovered; the steps of a request |
| `transfer` | staging, committing and framing file transfers |
| `client`, `cli`, `mcp`, `inputs` | the client's side: routing replies, command lines, the fleet of workspaces |
| `messages`, `record`, `error` | the values that all of these speak of |

The proof functions that are public state what holds of the library as a whole:
that a request is carried out once and replayed afterwards, that an undo restores
what was there, that pages put together give the whole, that a remote shell reads
back the words it was sent.

Not proved are the contracts of the functions marked `external_body` and of the
`assume_specification` items, each of which names the function it stands for:
the SHA-256 hasher, hex encoding, and a few functions of the standard library.
