//! Running a command: what is started, what is kept of its output, and how the
//! run ends.

use vstd::prelude::*;

use crate::config::ServerConfig;
use crate::error::{ErrorCode, ProtocolError};
use crate::messages::{ExecEventKind, ExecOutput, ExecTermination, OperationId};
use crate::quote;
use crate::text;
use crate::utf8;
use crate::utf8::Utf8Decoder;
use crate::workspace;

verus! {

/// Upper bound on the captured output per stream, to keep a runaway command from
/// exhausting the server's memory. Output beyond it is still decoded, counted and
/// previewed; only the captured copy is cut off.
pub const CAPTURE_LIMIT: usize = 64 * 1024 * 1024;

/// How much of the start of a stream its preview keeps.
pub const PREVIEW_PREFIX: usize = 4096;

/// How much of the end of a stream its preview keeps.
pub const PREVIEW_SUFFIX: usize = 12288;

/// What came of a command that was started.
#[derive(Debug)]
pub struct ExecOutcome {
    pub exit_code: i32,
    pub operation_id: OperationId,
    pub stdout: Vec<u8>,
    pub stderr: Vec<u8>,
    pub duration_ms: u64,
    /// True if the process was killed by timeout.
    pub timed_out: bool,
    /// True if either captured stream hit [`CAPTURE_LIMIT`].
    pub output_truncated: bool,
}

/// A piece of output.
pub enum StreamEvent {
    Stdout(Vec<u8>),
    Stderr(Vec<u8>),
}

/// Appends as much of `chunk` as fits below `cap`. Returns whether the cap was
/// hit.
pub fn extend_capped(buf: &mut Vec<u8>, chunk: &[u8], cap: usize) -> (hit: bool)
    ensures
        final(buf)@ == capped(old(buf)@, chunk@, cap as nat),
        hit == hits_cap(old(buf)@, chunk@, cap as nat),
{
    let len: usize = buf.len();
    if len >= cap {
        return true;
    }
    let remaining: usize = cap - len;
    let ghost before = buf@;
    if chunk.len() <= remaining {
        buf.extend_from_slice(chunk);
        assert(buf@ =~= capped(before, chunk@, cap as nat));
        false
    } else {
        buf.extend_from_slice(vstd::slice::slice_subrange(chunk, 0, remaining));
        assert(buf@ =~= capped(before, chunk@, cap as nat));
        true
    }
}

/// What a capped buffer holds after `chunk` was offered to it.
pub open spec fn capped(buf: Seq<u8>, chunk: Seq<u8>, cap: nat) -> Seq<u8> {
    if buf.len() >= cap {
        buf
    } else if buf.len() + chunk.len() <= cap {
        buf + chunk
    } else {
        (buf + chunk).take(cap as int)
    }
}

/// Whether `chunk` hits the cap of a buffer: the buffer is full, or would hold
/// more than the cap.
pub open spec fn hits_cap(buf: Seq<u8>, chunk: Seq<u8>, cap: nat) -> bool {
    buf.len() >= cap || buf.len() + chunk.len() > cap
}

/// The first bytes of a sequence, at most `n`.
pub open spec fn at_most(s: Seq<u8>, n: nat) -> Seq<u8> {
    if s.len() <= n {
        s
    } else {
        s.take(n as int)
    }
}

/// What a buffer with a cap holds of a stream is its start, up to the cap.
pub proof fn capped_is_start_of_stream(stream: Seq<u8>, chunk: Seq<u8>, cap: nat)
    ensures
        capped(at_most(stream, cap), chunk, cap) == at_most(stream + chunk, cap),
{
    assert(capped(at_most(stream, cap), chunk, cap) =~= at_most(stream + chunk, cap));
}

/// The start of a stream that its preview keeps.
pub open spec fn head_of(stream: Seq<u8>) -> Seq<u8> {
    at_most(stream, PREVIEW_PREFIX as nat)
}

/// The end of a stream that its preview keeps, where it is not part of the start.
pub open spec fn tail_of(stream: Seq<u8>) -> Seq<u8> {
    if stream.len() <= PREVIEW_PREFIX {
        Seq::<u8>::empty()
    } else if stream.len() <= PREVIEW_PREFIX + PREVIEW_SUFFIX {
        stream.skip(PREVIEW_PREFIX as int)
    } else {
        stream.skip(stream.len() - PREVIEW_SUFFIX)
    }
}

/// A count that stays at the largest number where it would pass it.
pub open spec fn counted(n: nat) -> u64 {
    if n <= u64::MAX {
        n as u64
    } else {
        u64::MAX
    }
}

/// The preview of a stream.
pub open spec fn previews(out: ExecOutput, stream: Seq<u8>) -> bool {
    &&& out.prefix@ == utf8::lossy_text(head_of(stream))
    &&& out.suffix@ == utf8::lossy_text(tail_of(stream))
    &&& out.total_bytes == counted(stream.len())
    &&& out.omitted_bytes == counted(stream.len()) - head_of(stream).len() - tail_of(stream).len()
}

/// A preview leaves nothing out of a stream of up to 16 KiB, and of a longer one
/// everything between its first 4 KiB and its last 12 KiB.
pub proof fn preview_keeps_both_ends(stream: Seq<u8>)
    ensures
        stream.len() <= 16384 ==> head_of(stream) + tail_of(stream) == stream,
        stream.len() > 16384 ==> {
            &&& head_of(stream) == stream.take(4096)
            &&& tail_of(stream) == stream.skip(stream.len() - 12288)
        },
        head_of(stream).len() + tail_of(stream).len() <= 16384,
{
    if stream.len() <= 16384 {
        assert(head_of(stream) + tail_of(stream) =~= stream);
    }
}

/// A preview, as it is sent, loses nothing of a stream of up to 16 KiB, and of a
/// longer one only what lies between its first 4 KiB and its last 12 KiB. What it
/// tells of the bytes is what it shows and what it left out.
pub proof fn previews_tell_what_they_leave_out(out: ExecOutput, stream: Seq<u8>)
    requires
        previews(out, stream),
        stream.len() <= u64::MAX,
    ensures
        out.total_bytes == stream.len(),
        stream.len() <= 4096 ==> out.prefix@ == utf8::lossy_text(stream) && out.suffix@.len() == 0,
        4096 < stream.len() <= 16384 ==> {
            &&& out.prefix@ == utf8::lossy_text(stream.take(4096))
            &&& out.suffix@ == utf8::lossy_text(stream.skip(4096))
        },
        stream.len() <= 16384 ==> out.omitted_bytes == 0,
        stream.len() > 16384 ==> {
            &&& out.prefix@ == utf8::lossy_text(stream.take(4096))
            &&& out.suffix@ == utf8::lossy_text(stream.skip(stream.len() - 12288))
            &&& out.omitted_bytes == stream.len() - 4096 - 12288
        },
        out.total_bytes - out.omitted_bytes == vstd::math::min(stream.len() as int, 4096)
            + vstd::math::min(vstd::math::max(stream.len() - 4096, 0), 12288),
        stream.len() <= 16384 && vstd::utf8::valid_utf8(stream) && (stream.len() <= 4096
            || vstd::utf8::is_char_boundary(stream, 4096)) ==> out.prefix@ + out.suffix@
            == vstd::utf8::decode_utf8(stream),
{
    assert(utf8::lossy_text(Seq::<u8>::empty()) =~= Seq::<char>::empty());
    if vstd::utf8::valid_utf8(stream) {
        utf8::valid_bytes_decode_exactly(stream);
        if stream.len() <= 4096 {
            assert(out.prefix@ + out.suffix@ =~= out.prefix@);
        } else if stream.len() <= 16384 && vstd::utf8::is_char_boundary(stream, 4096) {
            vstd::utf8::valid_utf8_split(stream, 4096);
            vstd::utf8::decode_utf8_split(stream, 4096);
            assert(stream.take(4096) =~= stream.subrange(0, 4096));
            assert(stream.skip(4096) =~= stream.subrange(4096, stream.len() as int));
            utf8::valid_bytes_decode_exactly(stream.take(4096));
            utf8::valid_bytes_decode_exactly(stream.skip(4096));
        }
    }
}

/// What is captured of a stream is its start, all of it up to 64 MiB, and the
/// truncation is reported exactly where a piece did not fit or came too late.
pub proof fn captures_report_what_they_drop(buf: Seq<u8>, chunk: Seq<u8>, cap: nat)
    requires
        buf.len() <= cap,
    ensures
        capped(buf, chunk, cap).is_prefix_of(buf + chunk),
        capped(buf, chunk, cap).len() == vstd::math::min(
            (buf.len() + chunk.len()) as int,
            cap as int,
        ),
        !hits_cap(buf, chunk, cap) ==> capped(buf, chunk, cap) == buf + chunk,
        capped(buf, chunk, cap) != buf + chunk ==> hits_cap(buf, chunk, cap),
        hits_cap(buf, chunk, cap) ==> capped(buf, chunk, cap).len() == cap,
        CAPTURE_LIMIT == 67108864,
        at_most(buf, cap) == buf,
        at_most(buf + chunk, cap) == capped(buf, chunk, cap),
{
    assert(capped(buf, chunk, cap).is_prefix_of(buf + chunk));
    assert(at_most(buf + chunk, cap) =~= capped(buf, chunk, cap));
}

/// The events of a stream carry its text to the stream that it came from, and
/// none is sent without text.
pub proof fn events_carry_their_text(event: Option<ExecEventKind>, text: Seq<char>, to_stdout: bool)
    requires
        carries(event, text, to_stdout),
    ensures
        event is None <==> text.len() == 0,
        event matches Some(ExecEventKind::Stdout { data }) ==> to_stdout && data@ == text,
        event matches Some(ExecEventKind::Stderr { data }) ==> !to_stdout && data@ == text,
        event is Some ==> !(event->0 is Exit),
{
}

/// One output stream of a running command.
pub struct StreamCapture {
    captured: Vec<u8>,
    decoder: Utf8Decoder,
    head: Vec<u8>,
    tail: Vec<u8>,
    total: u64,
    seen: Ghost<Seq<u8>>,
}

impl View for StreamCapture {
    type V = Seq<u8>;

    /// Everything that the stream has carried so far.
    closed spec fn view(&self) -> Seq<u8> {
        self.seen@
    }
}

impl StreamCapture {
    pub closed spec fn wf(&self) -> bool {
        &&& self.captured@ == at_most(self@, CAPTURE_LIMIT as nat)
        &&& self.decoder.wf()
        &&& self.head@ == head_of(self@)
        &&& self.tail@ == tail_of(self@)
        &&& self.total == counted(self@.len())
    }

    /// The bytes at the end of the stream that start a character without
    /// completing it.
    pub closed spec fn pending(&self) -> Seq<u8> {
        self.decoder@
    }

    pub fn new() -> (s: Self)
        ensures
            s.wf(),
            s@ == Seq::<u8>::empty(),
            s.pending() == Seq::<u8>::empty(),
    {
        let s = StreamCapture {
            captured: Vec::new(),
            decoder: Utf8Decoder::new(),
            head: Vec::new(),
            tail: Vec::new(),
            total: 0,
            seen: Ghost(Seq::empty()),
        };
        assert(s.captured@ =~= at_most(s@, CAPTURE_LIMIT as nat));
        assert(s.head@ =~= head_of(s@));
        assert(s.tail@ =~= tail_of(s@));
        s
    }

    /// Takes a piece of output. Returns the text that is complete now, if there
    /// is any, and whether the piece hit the cap of the captured copy.
    pub fn take(&mut self, chunk: &[u8]) -> (out: (Option<String>, bool))
        requires
            old(self).wf(),
        ensures
            final(self).wf(),
            final(self)@ == old(self)@ + chunk@,
            final(self).pending() == utf8::held_back(old(self).pending() + chunk@),
            match out.0 {
                Some(text) => text@.len() > 0 && text@ == utf8::complete_text(
                    old(self).pending() + chunk@,
                ),
                None => utf8::complete_text(old(self).pending() + chunk@).len() == 0,
            },
            out.1 == hits_cap(
                at_most(old(self)@, CAPTURE_LIMIT as nat),
                chunk@,
                CAPTURE_LIMIT as nat,
            ),
    {
        let ghost before = self@;
        let ghost now = before + chunk@;
        proof {
            capped_is_start_of_stream(before, chunk@, CAPTURE_LIMIT as nat);
        }
        let hit = extend_capped(&mut self.captured, chunk, CAPTURE_LIMIT);
        let text = self.decoder.feed(chunk);
        self.keep_ends(chunk);
        let n: u64 = chunk.len() as u64;
        if n > u64::MAX - self.total {
            self.total = u64::MAX;
        } else {
            self.total = self.total + n;
        }
        self.seen = Ghost(now);
        (text, hit)
    }

    fn keep_ends(&mut self, chunk: &[u8])
        requires
            old(self).head@ == head_of(old(self)@),
            old(self).tail@ == tail_of(old(self)@),
        ensures
            final(self).head@ == head_of(old(self)@ + chunk@),
            final(self).tail@ == tail_of(old(self)@ + chunk@),
            final(self).captured == old(self).captured,
            final(self).decoder == old(self).decoder,
            final(self).total == old(self).total,
            final(self).seen == old(self).seen,
    {
        let ghost before = self@;
        let ghost now = before + chunk@;
        let had: usize = self.head.len();
        let room: usize = PREVIEW_PREFIX - had;
        let cut: usize = if chunk.len() <= room {
            chunk.len()
        } else {
            room
        };
        self.head.extend_from_slice(vstd::slice::slice_subrange(chunk, 0, cut));
        assert(self.head@ =~= head_of(now));
        let ghost tail_before = self.tail@;
        let rest = vstd::slice::slice_subrange(chunk, cut, chunk.len());
        self.tail.extend_from_slice(rest);
        let len: usize = self.tail.len();
        if len > PREVIEW_SUFFIX {
            let kept = vstd::slice::slice_to_vec(
                vstd::slice::slice_subrange(self.tail.as_slice(), len - PREVIEW_SUFFIX, len),
            );
            self.tail = kept;
        }
        assert(self.tail@ =~= tail_of(now));
    }

    /// Ends the stream. Returns one replacement character for a character that
    /// was cut off, if there is one.
    pub fn flush(&mut self) -> (out: Option<String>)
        requires
            old(self).wf(),
        ensures
            final(self).wf(),
            final(self)@ == old(self)@,
            final(self).pending() == Seq::<u8>::empty(),
            match out {
                Some(text) => old(self).pending().len() > 0 && text@ == seq![utf8::REPLACEMENT],
                None => old(self).pending().len() == 0,
            },
    {
        self.decoder.flush()
    }

    /// The bounded preview of the stream.
    pub fn preview(&self) -> (out: ExecOutput)
        requires
            self.wf(),
        ensures
            previews(out, self@),
    {
        let kept: u64 = self.head.len() as u64 + self.tail.len() as u64;
        proof {
            preview_keeps_both_ends(self@);
        }
        ExecOutput {
            prefix: utf8::decode_lossy(self.head.as_slice()),
            suffix: utf8::decode_lossy(self.tail.as_slice()),
            total_bytes: self.total,
            omitted_bytes: self.total - kept,
        }
    }

    /// The captured copy of the stream.
    pub fn into_captured(self) -> (out: Vec<u8>)
        requires
            self.wf(),
        ensures
            out@ == at_most(self@, CAPTURE_LIMIT as nat),
    {
        self.captured
    }
}

/// A running command: its two output streams, and when it has to be over.
pub struct ExecSession {
    pub stdout: StreamCapture,
    pub stderr: StreamCapture,
    pub output_truncated: bool,
    pub timed_out: bool,
    /// Milliseconds from the start of the command to its deadline, fixed when the
    /// command starts. Without one it may run for as long as it takes.
    pub deadline_ms: Option<u64>,
}

/// The text event of one stream.
pub open spec fn carries(event: Option<ExecEventKind>, text: Seq<char>, to_stdout: bool) -> bool {
    match event {
        None => text.len() == 0,
        Some(ExecEventKind::Stdout { data }) => to_stdout && text.len() > 0 && data@ == text,
        Some(ExecEventKind::Stderr { data }) => !to_stdout && text.len() > 0 && data@ == text,
        Some(ExecEventKind::Exit { .. }) => false,
    }
}

/// Whether taking a piece of output turned one session into the other, and is told by
/// `out`.
pub open spec fn took(
    before: ExecSession,
    after: ExecSession,
    ev: StreamEvent,
    out: Option<ExecEventKind>,
) -> bool {
    &&& after.timed_out == before.timed_out
    &&& after.deadline_ms == before.deadline_ms
    &&& match ev {
        StreamEvent::Stdout(b) => {
            &&& after.stdout@ == before.stdout@ + b@
            &&& after.stdout.pending() == utf8::held_back(
                before.stdout.pending() + b@,
            )
            &&& after.stderr == before.stderr
            &&& carries(out, utf8::complete_text(before.stdout.pending() + b@), true)
            &&& after.output_truncated == (before.output_truncated || hits_cap(
                at_most(before.stdout@, CAPTURE_LIMIT as nat),
                b@,
                CAPTURE_LIMIT as nat,
            ))
        },
        StreamEvent::Stderr(b) => {
            &&& after.stderr@ == before.stderr@ + b@
            &&& after.stderr.pending() == utf8::held_back(
                before.stderr.pending() + b@,
            )
            &&& after.stdout == before.stdout
            &&& carries(out, utf8::complete_text(before.stderr.pending() + b@), false)
            &&& after.output_truncated == (before.output_truncated || hits_cap(
                at_most(before.stderr@, CAPTURE_LIMIT as nat),
                b@,
                CAPTURE_LIMIT as nat,
            ))
        },
    }
}

impl ExecSession {
    pub open spec fn wf(&self) -> bool {
        &&& self.stdout.wf()
        &&& self.stderr.wf()
        &&& self.timed_out ==> self.deadline_ms is Some
    }

    pub fn new(deadline_ms: Option<u64>) -> (s: Self)
        ensures
            s.wf(),
            s.stdout@ == Seq::<u8>::empty(),
            s.stderr@ == Seq::<u8>::empty(),
            s.stdout.pending() == Seq::<u8>::empty(),
            s.stderr.pending() == Seq::<u8>::empty(),
            !s.output_truncated,
            !s.timed_out,
            s.deadline_ms == deadline_ms,
    {
        ExecSession {
            stdout: StreamCapture::new(),
            stderr: StreamCapture::new(),
            output_truncated: false,
            timed_out: false,
            deadline_ms,
        }
    }

    /// Whether the deadline has come, `elapsed_ms` after the start.
    pub open spec fn due(self, elapsed_ms: u64) -> bool {
        self.deadline_ms matches Some(ms) && elapsed_ms >= ms
    }

    /// Whether the command has to be killed, `elapsed_ms` after its start. Output
    /// never moves the deadline, and without one the command is never killed.
    pub fn poll(&mut self, elapsed_ms: u64) -> (kill: bool)
        requires
            old(self).wf(),
        ensures
            final(self).wf(),
            kill == old(self).due(elapsed_ms),
            final(self).timed_out == (old(self).timed_out || kill),
            final(self).stdout == old(self).stdout,
            final(self).stderr == old(self).stderr,
            final(self).output_truncated == old(self).output_truncated,
            final(self).deadline_ms == old(self).deadline_ms,
    {
        let kill = match self.deadline_ms {
            Some(ms) => elapsed_ms >= ms,
            None => false,
        };
        if kill {
            self.timed_out = true;
        }
        kill
    }

    /// Takes a piece of output. Returns the event that tells of it while the
    /// command runs, if it completes any text.
    pub fn handle_stream_event(&mut self, ev: &StreamEvent) -> (out: Option<ExecEventKind>)
        requires
            old(self).wf(),
        ensures
            final(self).wf(),
            took(*old(self), *final(self), *ev, out),
    {
        match ev {
            StreamEvent::Stdout(b) => {
                let (text, hit) = self.stdout.take(b.as_slice());
                if hit {
                    self.output_truncated = true;
                }
                match text {
                    Some(data) => Some(ExecEventKind::Stdout { data }),
                    None => None,
                }
            },
            StreamEvent::Stderr(b) => {
                let (text, hit) = self.stderr.take(b.as_slice());
                if hit {
                    self.output_truncated = true;
                }
                match text {
                    Some(data) => Some(ExecEventKind::Stderr { data }),
                    None => None,
                }
            },
        }
    }

    /// Ends both streams. Returns the events for characters that were cut off, of
    /// each stream at most one.
    pub fn flush(&mut self) -> (out: (Option<ExecEventKind>, Option<ExecEventKind>))
        requires
            old(self).wf(),
        ensures
            final(self).wf(),
            final(self).stdout@ == old(self).stdout@,
            final(self).stderr@ == old(self).stderr@,
            final(self).stdout.pending() == Seq::<u8>::empty(),
            final(self).stderr.pending() == Seq::<u8>::empty(),
            final(self).output_truncated == old(self).output_truncated,
            final(self).timed_out == old(self).timed_out,
            final(self).deadline_ms == old(self).deadline_ms,
            carries(out.0, closing_text(old(self).stdout.pending()), true),
            carries(out.1, closing_text(old(self).stderr.pending()), false),
    {
        let a = match self.stdout.flush() {
            Some(data) => Some(ExecEventKind::Stdout { data }),
            None => None,
        };
        let b = match self.stderr.flush() {
            Some(data) => Some(ExecEventKind::Stderr { data }),
            None => None,
        };
        (a, b)
    }

    /// Whether `out` is what came of the command.
    pub open spec fn ended(
        self,
        out: Result<(ExecOutcome, ExecOutput, ExecOutput), ProtocolError>,
        exit: Result<Option<i32>, String>,
        operation_id: OperationId,
        duration_ms: u64,
    ) -> bool {
        match out {
            Ok((o, stdout, stderr)) => {
                &&& self.timed_out || exit is Ok
                &&& o.exit_code == (if self.timed_out || exit->Ok_0 is None {
                    -1
                } else {
                    exit->Ok_0->0 as int
                })
                &&& o.operation_id == operation_id
                &&& o.stdout@ == at_most(self.stdout@, CAPTURE_LIMIT as nat)
                &&& o.stderr@ == at_most(self.stderr@, CAPTURE_LIMIT as nat)
                &&& o.duration_ms == duration_ms
                &&& o.timed_out == self.timed_out
                &&& o.timed_out ==> self.deadline_ms is Some && o.exit_code == -1
                &&& o.output_truncated == self.output_truncated
                &&& previews(stdout, self.stdout@)
                &&& previews(stderr, self.stderr@)
            },
            Err(e) => {
                &&& !self.timed_out
                &&& exit matches Err(m)
                &&& e.says(ErrorCode::ExecFailed, "wait failed: "@ + m@)
            },
        }
    }

    /// What came of the command: killed at its deadline, or over by itself with a
    /// code, or with none, which counts as -1. Waiting for it may have failed
    /// with a message.
    pub fn finish(
        self,
        exit: Result<Option<i32>, String>,
        operation_id: OperationId,
        duration_ms: u64,
    ) -> (out: Result<(ExecOutcome, ExecOutput, ExecOutput), ProtocolError>)
        requires
            self.wf(),
        ensures
            self.ended(out, exit, operation_id, duration_ms),
    {
        let exit_code: i32 = if self.timed_out {
            -1
        } else {
            match exit {
                Ok(Some(code)) => code,
                Ok(None) => -1,
                Err(m) => {
                    let m = text::concat("wait failed: ", m.as_str());
                    return Err(ProtocolError::new(ErrorCode::ExecFailed, m.as_str()));
                },
            }
        };
        let stdout = self.stdout.preview();
        let stderr = self.stderr.preview();
        let outcome = ExecOutcome {
            exit_code,
            operation_id,
            stdout: self.stdout.into_captured(),
            stderr: self.stderr.into_captured(),
            duration_ms,
            timed_out: self.timed_out,
            output_truncated: self.output_truncated,
        };
        Ok((outcome, stdout, stderr))
    }
}

/// The text that stands for bytes which were held back to the end.
pub open spec fn closing_text(pending: Seq<u8>) -> Seq<char> {
    if pending.len() == 0 {
        Seq::<char>::empty()
    } else {
        seq![utf8::REPLACEMENT]
    }
}

/// The texts that a stream sends for its pieces, one after the other, where
/// `pending` is held back at first: each piece's complete text, and at the end
/// what stands for bytes that were held back.
pub open spec fn streamed_text(pending: Seq<u8>, pieces: Seq<Seq<u8>>) -> Seq<char>
    decreases pieces.len(),
{
    if pieces.len() == 0 {
        closing_text(pending)
    } else {
        utf8::complete_text(pending + pieces[0]) + streamed_text(
            utf8::held_back(pending + pieces[0]),
            pieces.drop_first(),
        )
    }
}

/// The pieces put together.
pub open spec fn whole(pieces: Seq<Seq<u8>>) -> Seq<u8>
    decreases pieces.len(),
{
    if pieces.len() == 0 {
        Seq::<u8>::empty()
    } else {
        pieces[0] + whole(pieces.drop_first())
    }
}

/// What a buffer with a cap holds after each of `pieces` was offered to it.
pub open spec fn captured(buf: Seq<u8>, pieces: Seq<Seq<u8>>, cap: nat) -> Seq<u8>
    decreases pieces.len(),
{
    if pieces.len() == 0 {
        buf
    } else {
        captured(capped(buf, pieces[0], cap), pieces.drop_first(), cap)
    }
}

/// However a stream is cut into pieces, a buffer with a cap holds the start of it,
/// up to the cap.
pub proof fn capture_is_independent_of_pieces(stream: Seq<u8>, pieces: Seq<Seq<u8>>, cap: nat)
    ensures
        captured(at_most(stream, cap), pieces, cap) == at_most(stream + whole(pieces), cap),
    decreases pieces.len(),
{
    if pieces.len() == 0 {
        assert(stream + whole(pieces) =~= stream);
    } else {
        capped_is_start_of_stream(stream, pieces[0], cap);
        capture_is_independent_of_pieces(stream + pieces[0], pieces.drop_first(), cap);
        assert(stream + whole(pieces) =~= stream + pieces[0] + whole(pieces.drop_first()));
    }
}

/// However a stream is cut into pieces, its events give the same text: that of
/// the whole stream, with one replacement character for each malformed or
/// cut-off sequence and nothing else changed.
pub proof fn streaming_is_independent_of_pieces(pending: Seq<u8>, pieces: Seq<Seq<u8>>)
    requires
        utf8::held_back(pending) == pending,
    ensures
        streamed_text(pending, pieces) == utf8::lossy_text(pending + whole(pieces)),
    decreases pieces.len(),
{
    if pieces.len() == 0 {
        assert(pending + whole(pieces) =~= pending);
        utf8::held_back_is_partial(pending);
        assert(streamed_text(pending, pieces) =~= utf8::lossy_text(pending));
    } else {
        let first = pending + pieces[0];
        let rest = whole(pieces.drop_first());
        let held = utf8::held_back(first);
        utf8::held_back_is_partial(first);
        streaming_is_independent_of_pieces(held, pieces.drop_first());
        utf8::decoding_is_incremental(first, rest);
        assert(pending + whole(pieces) =~= first + rest);
        assert(streamed_text(pending, pieces) =~= utf8::lossy_text(first + rest));
    }
}

/// The word of a command line that the shell reads back as `s`: `s` itself where
/// that is possible, else `s` between quotes.
pub fn shell_quote(s: &str) -> (out: String)
    ensures
        out@ == quote::word_of(s@),
{
    quote::quote_word(s)
}

/// Where a command is to run, as far as the file system tells.
pub struct WorkingDir {
    /// The directory, as errors show it.
    pub shown: String,
    /// Whether it lies inside the workspace or its scratch area.
    pub inside: bool,
    pub is_dir: bool,
}

impl WorkingDir {
    /// What the file system tells of a directory: `target` is the directory with its
    /// links followed, and `root` and `scratch` are the two directories that it may
    /// lie in, with theirs followed.
    pub fn seen(shown: String, target: &str, root: &str, scratch: &str, is_dir: bool) -> (out: Self)
        ensures
            out.shown == shown,
            out.inside == (workspace::lies_in(root@, target@) || workspace::lies_in(scratch@, target@)),
            out.is_dir == is_dir,
    {
        let inside = workspace::is_within(root, target) || workspace::is_within(scratch, target);
        WorkingDir { shown, inside, is_dir }
    }
}

/// What to start, and how long it may run: for as long as it takes without a
/// timeout.
pub struct ExecPlan {
    pub command: Vec<String>,
    pub timeout_ms: Option<u64>,
}

/// The error that refuses an exec request, if one does.
pub open spec fn exec_refusal(
    config: ServerConfig,
    cwd: Result<WorkingDir, ProtocolError>,
    profile: Option<Seq<char>>,
    argv: Seq<String>,
    e: ProtocolError,
) -> bool {
    if argv.len() == 0 {
        e.says(ErrorCode::InvalidRequest, "argv must not be empty"@)
    } else if config.chosen(profile) is Some && !config.profiles@.contains_key(
        config.chosen(profile)->0,
    ) {
        e.says(ErrorCode::InvalidRequest, "unknown profile: "@ + config.chosen(profile)->0)
    } else {
        match cwd {
            Err(cause) => e == cause,
            Ok(dir) => if !dir.inside {
                e.says(ErrorCode::PathOutsideRoot, "cwd escapes workspace root"@)
            } else {
                &&& !dir.is_dir
                &&& e.says(ErrorCode::NotFound, "cwd not found: "@ + dir.shown@)
            },
        }
    }
}

/// Whether an exec request can be started.
pub open spec fn exec_accepted(
    config: ServerConfig,
    cwd: Result<WorkingDir, ProtocolError>,
    profile: Option<Seq<char>>,
    argv: Seq<String>,
) -> bool {
    &&& argv.len() > 0
    &&& config.chosen(profile) matches Some(name) ==> config.profiles@.contains_key(name)
    &&& cwd matches Ok(dir) && dir.inside && dir.is_dir
}

/// Whether `plan` starts the command of an exec request: the shell of its profile
/// with the script as the last argument, or the command itself where no profile
/// applies.
pub open spec fn is_plan(
    plan: ExecPlan,
    config: ServerConfig,
    profile: Option<Seq<char>>,
    argv: Seq<String>,
    timeout_ms: Option<u64>,
) -> bool {
    &&& plan.timeout_ms == timeout_ms
    &&& match config.chosen(profile) {
        None => plan.command@ == argv,
        Some(name) => text::views(plan.command@) == text::views(
            config.profiles@[name].shell@,
        ).push(crate::config::script_for(config.profiles@[name].setup@, text::views(argv))),
    }
}

/// The characters of a string slice, if there is one.
pub open spec fn str_view(s: Option<&str>) -> Option<Seq<char>> {
    match s {
        Some(s) => Some(s@),
        None => None,
    }
}

/// Decides whether and how a command is started.
pub fn plan_exec(
    config: &ServerConfig,
    cwd: Result<WorkingDir, ProtocolError>,
    profile: Option<&str>,
    argv: &Vec<String>,
    timeout_ms: Option<u64>,
) -> (out: Result<ExecPlan, ProtocolError>)
    requires
        config.wf(),
    ensures
        out is Ok <==> exec_accepted(*config, cwd, str_view(profile), argv@),
        match out {
            Ok(plan) => is_plan(plan, *config, str_view(profile), argv@, timeout_ms),
            Err(e) => exec_refusal(*config, cwd, str_view(profile), argv@, e),
        },
{
    if argv.len() == 0 {
        return Err(ProtocolError::new(ErrorCode::InvalidRequest, "argv must not be empty"));
    }
    let command = match config.command_for(profile, argv) {
        Ok(command) => command,
        Err(e) => {
            return Err(e);
        },
    };
    let dir = match cwd {
        Ok(dir) => dir,
        Err(e) => {
            return Err(e);
        },
    };
    if !dir.inside {
        return Err(ProtocolError::new(ErrorCode::PathOutsideRoot, "cwd escapes workspace root"));
    }
    if !dir.is_dir {
        let m = text::concat("cwd not found: ", dir.shown.as_str());
        return Err(ProtocolError::new(ErrorCode::NotFound, m.as_str()));
    }
    Ok(ExecPlan { command, timeout_ms })
}

/// The error of a command that could not be started.
pub fn spawn_failed(cause: &str) -> (e: ProtocolError)
    ensures
        e.says(ErrorCode::ExecFailed, "spawn failed: "@ + cause@),
{
    let m = text::concat("spawn failed: ", cause);
    ProtocolError::new(ErrorCode::ExecFailed, m.as_str())
}

/// How the result tells that a command ended.
pub open spec fn termination_of(outcome: ExecOutcome) -> ExecTermination {
    if outcome.timed_out {
        ExecTermination::TimedOut
    } else {
        ExecTermination::Exited { code: outcome.exit_code }
    }
}

/// How the result tells that a command ended.
pub fn termination(outcome: &ExecOutcome) -> (t: ExecTermination)
    ensures
        t == termination_of(*outcome),
{
    if outcome.timed_out {
        ExecTermination::TimedOut
    } else {
        ExecTermination::Exited { code: outcome.exit_code }
    }
}

/// A command is started exactly where it has a program, its profile is declared
/// and its directory is one inside the workspace or the scratch area; whatever
/// timeout it has. Else the first of these that fails is told.
pub proof fn commands_are_refused_for_the_first_reason(
    config: ServerConfig,
    cwd: Result<WorkingDir, ProtocolError>,
    profile: Option<Seq<char>>,
    argv: Seq<String>,
    e: ProtocolError,
)
    ensures
        ({
            let named = match profile {
                Some(p) => Some(p),
                None => match config.default_profile {
                    Some(p) => Some(p@),
                    None => None,
                },
            };
            let declared = named is None || config.profiles@.contains_key(named->0);
            let usable = cwd matches Ok(d) && d.inside && d.is_dir;
            &&& exec_accepted(config, cwd, profile, argv) <==> argv.len() > 0 && declared && usable
            &&& exec_refusal(config, cwd, profile, argv, e) ==> {
                &&& argv.len() == 0 ==> e.code == ErrorCode::InvalidRequest && e.message@
                    == "argv must not be empty"@
                &&& argv.len() > 0 && !declared ==> e.code == ErrorCode::InvalidRequest
                    && e.message@ == "unknown profile: "@ + named->0
                &&& argv.len() > 0 && declared && cwd is Err ==> e == cwd->Err_0
                &&& argv.len() > 0 && declared && (cwd matches Ok(d) && !d.inside) ==> e.code
                    == ErrorCode::PathOutsideRoot
                &&& argv.len() > 0 && declared && (cwd matches Ok(d) && d.inside && !d.is_dir)
                    ==> e.code == ErrorCode::NotFound
                &&& !(argv.len() > 0 && declared && usable)
            }
        }),
{
}

/// A command without a profile is started as it is. Under a profile it is the
/// last word of the profile's shell: the setup, and behind it a line that the
/// shell reads as `exec` and the arguments.
pub proof fn commands_are_started_under_their_profile(
    plan: ExecPlan,
    config: ServerConfig,
    profile: Option<Seq<char>>,
    argv: Seq<String>,
    timeout_ms: Option<u64>,
)
    requires
        is_plan(plan, config, profile, argv, timeout_ms),
        argv.len() > 0,
    ensures
        plan.timeout_ms == timeout_ms,
        profile is None && config.default_profile is None ==> plan.command@ == argv,
        ({
            let named = match profile {
                Some(p) => Some(p),
                None => match config.default_profile {
                    Some(p) => Some(p@),
                    None => None,
                },
            };
            named is Some ==> {
                let p = config.profiles@[named->0];
                let n = p.shell@.len();
                let script = plan.command@.last()@;
                let line = if p.setup@.len() == 0 {
                    script
                } else {
                    script.skip(p.setup@.len() as int + 1)
                };
                &&& plan.command@.len() == n + 1
                &&& forall|i: int| 0 <= i < n ==> (#[trigger] plan.command@[i])@ == p.shell@[i]@
                &&& p.setup@.len() > 0 ==> script.take(p.setup@.len() as int) == p.setup@
                    && script[p.setup@.len() as int] == '\n'
                &&& quote::shell_words(line) == Some(seq!["exec"@] + text::views(argv))
            }
        }),
{
    let named = config.chosen(profile);
    if named is Some {
        let p = config.profiles@[named->0];
        let words = text::views(plan.command@);
        let n = p.shell@.len();
        let views = text::views(argv);
        crate::config::script_runs_the_command(p.setup@, views);
        assert(words.len() == n + 1);
        assert(words[n as int] == plan.command@[n as int]@);
        assert forall|i: int| 0 <= i < n implies (#[trigger] plan.command@[i])@ == p.shell@[i]@ by {
            assert(words[i] == plan.command@[i]@);
            assert(text::views(p.shell@)[i] == p.shell@[i]@);
        }
        let script = plan.command@.last()@;
        let line = crate::config::script_for(Seq::<char>::empty(), views);
        if p.setup@.len() > 0 {
            reveal_strlit("\n");
            assert(script == p.setup@ + "\n"@ + line);
            assert(script.take(p.setup@.len() as int) =~= p.setup@);
            assert(script.skip(p.setup@.len() as int + 1) =~= line);
        }
    }
}

/// A command that was killed at its deadline is told so, and one that ended by
/// itself is told with its code.
pub proof fn endings_are_told(outcome: ExecOutcome)
    ensures
        outcome.timed_out <==> termination_of(outcome) is TimedOut,
        !outcome.timed_out ==> termination_of(outcome) == (ExecTermination::Exited {
            code: outcome.exit_code,
        }),
{
}

/// The pieces of a stream put together are the stream.
pub proof fn pieces_make_up_the_stream(pieces: Seq<Seq<u8>>)
    ensures
        whole(pieces) == pieces.flatten(),
    decreases pieces.len(),
{
    if pieces.len() > 0 {
        pieces_make_up_the_stream(pieces.drop_first());
    }
}

/// What came of a command is told in full: the code that it exited with, or -1 where it
/// had none or was killed at its deadline; its output, all of it up to 64 MiB; and the
/// previews of both streams.
pub proof fn commands_are_told_in_full(
    session: ExecSession,
    out: Result<(ExecOutcome, ExecOutput, ExecOutput), ProtocolError>,
    exit: Result<Option<i32>, String>,
    operation_id: OperationId,
    duration_ms: u64,
)
    requires
        session.ended(out, exit, operation_id, duration_ms),
    ensures
        out is Err <==> !session.timed_out && exit is Err,
        out matches Err(e) ==> e.code == ErrorCode::ExecFailed,
        out matches Ok((o, stdout, stderr)) ==> {
            &&& session.timed_out ==> o.exit_code == -1
            &&& !session.timed_out ==> (exit matches Ok(Some(code)) ==> o.exit_code == code)
            &&& !session.timed_out ==> (exit matches Ok(None) ==> o.exit_code == -1)
            &&& o.timed_out == session.timed_out
            &&& o.output_truncated == session.output_truncated
            &&& o.operation_id == operation_id
            &&& o.duration_ms == duration_ms
            &&& o.stdout@.is_prefix_of(session.stdout@)
            &&& o.stderr@.is_prefix_of(session.stderr@)
            &&& o.stdout@.len() == vstd::math::min(session.stdout@.len() as int, 67108864)
            &&& o.stderr@.len() == vstd::math::min(session.stderr@.len() as int, 67108864)
            &&& previews(stdout, session.stdout@)
            &&& previews(stderr, session.stderr@)
        },
{
}

/// A command is killed from its deadline on and not before, and never where it has
/// none.
pub proof fn deadlines_come_on_time(session: ExecSession, ms: u64, elapsed_ms: u64)
    ensures
        session.deadline_ms is None ==> !session.due(elapsed_ms),
        session.deadline_ms == Some(ms) ==> session.due(ms),
        session.deadline_ms == Some(ms) && elapsed_ms < ms ==> !session.due(elapsed_ms),
        session.due(ms) && ms <= elapsed_ms ==> session.due(elapsed_ms),
{
}

/// A piece of output is kept on its own stream and on no other, all of it; its text is
/// sent as far as it is complete, on the side of that stream, and the rest is held back.
/// That the captured copy is cut short is told from the piece on that does not fit in its
/// 64 MiB.
pub proof fn output_is_taken_in_full(
    before: ExecSession,
    after: ExecSession,
    ev: StreamEvent,
    out: Option<ExecEventKind>,
)
    requires
        took(before, after, ev, out),
    ensures
        after.timed_out == before.timed_out && after.deadline_ms == before.deadline_ms,
        ev matches StreamEvent::Stdout(b) ==> {
            let text = utf8::complete_text(before.stdout.pending() + b@);
            &&& after.stdout@ == before.stdout@ + b@
            &&& after.stderr == before.stderr
            &&& out is None <==> text.len() == 0
            &&& out is Some ==> (out->0 matches ExecEventKind::Stdout { data } && data@ == text)
            &&& after.stdout.pending() == utf8::held_back(before.stdout.pending() + b@)
            &&& after.output_truncated <==> before.output_truncated || before.stdout@.len()
                >= 67108864 || before.stdout@.len() + b@.len() > 67108864
        },
        ev matches StreamEvent::Stderr(b) ==> {
            let text = utf8::complete_text(before.stderr.pending() + b@);
            &&& after.stderr@ == before.stderr@ + b@
            &&& after.stdout == before.stdout
            &&& out is None <==> text.len() == 0
            &&& out is Some ==> (out->0 matches ExecEventKind::Stderr { data } && data@ == text)
            &&& after.stderr.pending() == utf8::held_back(before.stderr.pending() + b@)
            &&& after.output_truncated <==> before.output_truncated || before.stderr@.len()
                >= 67108864 || before.stderr@.len() + b@.len() > 67108864
        },
{
}

}
