//! Content hashes: SHA-256, written as `sha256:` and the digest in lowercase hex.

use sha2::Digest;

use vstd::prelude::*;

use crate::text;

verus! {

/// The SHA-256 hasher of the `sha2` crate.
#[verifier::external_type_specification]
#[verifier::external_body]
pub struct ExSha256(sha2::Sha256);

/// The SHA-256 digest of a message.
pub uninterp spec fn sha256(message: Seq<u8>) -> Seq<u8>;

/// The bytes that a hasher has taken so far.
pub uninterp spec fn absorbed(hasher: sha2::Sha256) -> Seq<u8>;

/// The hasher counts the bits of its message in 64 bits, so a message stays
/// shorter than this many bytes.
pub const MESSAGE_LIMIT: u64 = 0x2000_0000_0000_0000;

/// `sha2::Sha256::digest`: the digest of a whole message, which has 32 bytes. The
/// contract names the digest; it depends on the message alone. No message that
/// fits in an address space reaches [`MESSAGE_LIMIT`].
#[verifier::external_body]
fn digest_of(message: &[u8]) -> (digest: Vec<u8>)
    ensures
        digest@ == sha256(message@),
        digest@.len() == 32,
{
    sha2::Sha256::digest(message).to_vec()
}

/// `sha2::Sha256::new`: a hasher that has taken nothing yet.
#[verifier::external_body]
fn new_hasher() -> (hasher: sha2::Sha256)
    ensures
        absorbed(hasher) == Seq::<u8>::empty(),
{
    sha2::Sha256::new()
}

/// `sha2::Sha256::update`: the hasher takes further bytes of its message.
#[verifier::external_body]
fn update_hasher(hasher: &mut sha2::Sha256, chunk: &[u8])
    requires
        absorbed(*old(hasher)).len() + chunk@.len() < MESSAGE_LIMIT,
    ensures
        absorbed(*final(hasher)) == absorbed(*old(hasher)) + chunk@,
{
    hasher.update(chunk)
}

/// `sha2::Sha256::finalize`: the digest of all that the hasher has taken, the
/// same as that of the message in one piece.
#[verifier::external_body]
fn finalize_hasher(hasher: sha2::Sha256) -> (digest: Vec<u8>)
    requires
        absorbed(hasher).len() < MESSAGE_LIMIT,
    ensures
        digest@ == sha256(absorbed(hasher)),
        digest@.len() == 32,
{
    hasher.finalize().to_vec()
}

/// The lowercase hex digit for a value below sixteen.
pub open spec fn hex_digit(d: nat) -> char {
    if d < 10 {
        ('0' as nat + d) as char
    } else {
        ('a' as nat + d - 10) as char
    }
}

/// Two lowercase hex digits per byte, the high half first.
pub open spec fn hex(bytes: Seq<u8>) -> Seq<char>
    decreases bytes.len(),
{
    if bytes.len() == 0 {
        Seq::<char>::empty()
    } else {
        hex(bytes.drop_last()) + seq![
            hex_digit((bytes.last() / 16) as nat),
            hex_digit((bytes.last() % 16) as nat),
        ]
    }
}

/// `hex::encode`: two lowercase hex digits per byte, in order.
#[verifier::external_body]
fn hex_of(bytes: &[u8]) -> (out: String)
    ensures
        out@ == hex(bytes@),
{
    hex::encode(bytes)
}

/// The hash of a content, as it is written.
pub open spec fn content_hash(bytes: Seq<u8>) -> Seq<char> {
    "sha256:"@ + hex(sha256(bytes))
}

/// The hash that stands for a file that does not exist.
pub open spec fn no_content_hash() -> Seq<char> {
    "sha256:"@
}

/// What a file holds, if there is one, by its hash.
pub open spec fn state_hash(state: Option<Seq<u8>>) -> Option<Seq<char>> {
    match state {
        Some(bytes) => Some(content_hash(bytes)),
        None => None,
    }
}

/// A digest, as it is written.
pub fn written_digest(digest: &[u8]) -> (out: String)
    ensures
        out@ == "sha256:"@ + hex(digest@),
{
    text::concat("sha256:", hex_of(digest).as_str())
}

/// The hash of a content.
pub fn hash_bytes(bytes: &[u8]) -> (out: String)
    ensures
        out@ == content_hash(bytes@),
{
    let digest = digest_of(bytes);
    written_digest(digest.as_slice())
}

/// The hash of a file, if there is one.
pub fn hash_state(state: &Option<Vec<u8>>) -> (out: Option<String>)
    ensures
        match out {
            Some(h) => state matches Some(bytes) && h@ == content_hash(bytes@),
            None => state is None,
        },
{
    match state {
        Some(bytes) => Some(hash_bytes(bytes.as_slice())),
        None => None,
    }
}

/// The first twelve hex digits of the SHA-256 digest of `bytes`.
pub open spec fn short_hash(bytes: Seq<u8>) -> Seq<char> {
    hex(sha256(bytes).take(6))
}

/// The first twelve hex digits of the SHA-256 digest of `bytes`.
pub fn hash12(bytes: &[u8]) -> (out: String)
    ensures
        out@ == short_hash(bytes@),
        out@.len() == 12,
{
    let digest = digest_of(bytes);
    let start = vstd::slice::slice_subrange(digest.as_slice(), 0, 6);
    proof {
        assert(start@ =~= digest@.take(6));
        hex_length(start@);
    }
    hex_of(start)
}

proof fn hex_length(bytes: Seq<u8>)
    ensures
        hex(bytes).len() == 2 * bytes.len(),
    decreases bytes.len(),
{
    if bytes.len() > 0 {
        hex_length(bytes.drop_last());
    }
}

/// Contents hash alike where their digests are alike: the written form loses
/// nothing.
pub proof fn hash_tells_digests_apart(a: Seq<u8>, b: Seq<u8>)
    requires
        content_hash(a) == content_hash(b),
    ensures
        sha256(a) == sha256(b),
{
    let p = "sha256:"@;
    assert((p + hex(sha256(a))).skip(p.len() as int) =~= hex(sha256(a)));
    assert((p + hex(sha256(b))).skip(p.len() as int) =~= hex(sha256(b)));
    hex_is_injective(sha256(a), sha256(b));
}

proof fn hex_is_injective(a: Seq<u8>, b: Seq<u8>)
    requires
        hex(a) == hex(b),
    ensures
        a == b,
    decreases a.len(),
{
    hex_length(a);
    hex_length(b);
    if a.len() > 0 {
        let x = hex(a);
        let y = hex(b);
        assert(x.take(x.len() - 2) =~= hex(a.drop_last()));
        assert(y.take(y.len() - 2) =~= hex(b.drop_last()));
        hex_is_injective(a.drop_last(), b.drop_last());
        assert(x[x.len() - 2] == hex_digit((a.last() / 16) as nat));
        assert(x[x.len() - 1] == hex_digit((a.last() % 16) as nat));
        assert(y[y.len() - 2] == hex_digit((b.last() / 16) as nat));
        assert(y[y.len() - 1] == hex_digit((b.last() % 16) as nat));
        hex_digit_is_injective((a.last() / 16) as nat, (b.last() / 16) as nat);
        hex_digit_is_injective((a.last() % 16) as nat, (b.last() % 16) as nat);
        assert(a.last() == b.last());
        assert(a.drop_last().push(a.last()) =~= a);
        assert(b.drop_last().push(b.last()) =~= b);
    } else {
        assert(a =~= b);
    }
}

proof fn hex_digit_is_injective(a: nat, b: nat)
    requires
        a < 16,
        b < 16,
        hex_digit(a) == hex_digit(b),
    ensures
        a == b,
{
    assert(hex_digit(a) as nat == (if a < 10 {
        48 + a
    } else {
        87 + a
    }));
    assert(hex_digit(b) as nat == (if b < 10 {
        48 + b
    } else {
        87 + b
    }));
}

/// The hash of a content that arrives in pieces.
pub struct StreamHash {
    hasher: sha2::Sha256,
    total: u64,
}

impl View for StreamHash {
    type V = Seq<u8>;

    /// The bytes taken so far.
    closed spec fn view(&self) -> Seq<u8> {
        absorbed(self.hasher)
    }
}

impl StreamHash {
    pub closed spec fn wf(&self) -> bool {
        self.total == self@.len() && self.total < MESSAGE_LIMIT
    }

    /// How many bytes were taken is known, and bounded.
    pub proof fn bounded(&self)
        requires
            self.wf(),
        ensures
            self@.len() < MESSAGE_LIMIT,
    {
    }

    pub fn new() -> (h: Self)
        ensures
            h.wf(),
            h@ == Seq::<u8>::empty(),
    {
        StreamHash { hasher: new_hasher(), total: 0 }
    }

    /// How many bytes were taken.
    pub fn total(&self) -> (n: u64)
        requires
            self.wf(),
        ensures
            n == self@.len(),
    {
        self.total
    }

    /// Takes the next piece. Returns whether it was taken: a content of
    /// [`MESSAGE_LIMIT`] bytes or more is not.
    pub fn update(&mut self, chunk: &[u8]) -> (taken: bool)
        requires
            old(self).wf(),
        ensures
            final(self).wf(),
            taken == (old(self)@.len() + chunk@.len() < MESSAGE_LIMIT),
            final(self)@ == (if taken {
                old(self)@ + chunk@
            } else {
                old(self)@
            }),
    {
        let n: u64 = chunk.len() as u64;
        if n >= MESSAGE_LIMIT - self.total {
            return false;
        }
        update_hasher(&mut self.hasher, chunk);
        self.total = self.total + n;
        true
    }

    /// The hash of the whole content.
    pub fn finish(self) -> (out: String)
        requires
            self.wf(),
        ensures
            out@ == content_hash(self@),
    {
        let digest = finalize_hasher(self.hasher);
        text::concat("sha256:", hex_of(digest.as_slice()).as_str())
    }
}

/// Each byte is written as two of the sixteen digits, the high half first.
pub proof fn hex_writes_every_byte(bytes: Seq<u8>)
    ensures
        hex(bytes).len() == 2 * bytes.len(),
        forall|i: int|
            0 <= i < bytes.len() ==> hex(bytes)[2 * i] == "0123456789abcdef"@[#[trigger] bytes[i]
                as int / 16] && hex(bytes)[2 * i + 1] == "0123456789abcdef"@[bytes[i] as int % 16],
    decreases bytes.len(),
{
    hex_length(bytes);
    reveal_strlit("0123456789abcdef");
    assert forall|i: int| 0 <= i < bytes.len() implies hex(bytes)[2 * i]
        == "0123456789abcdef"@[#[trigger] bytes[i] as int / 16] && hex(bytes)[2 * i + 1]
        == "0123456789abcdef"@[bytes[i] as int % 16] by {
        if i < bytes.len() - 1 {
            hex_writes_every_byte(bytes.drop_last());
            assert(bytes.drop_last()[i] == bytes[i]);
            hex_length(bytes.drop_last());
        } else {
            hex_length(bytes.drop_last());
            assert(hex(bytes)[2 * i] == hex_digit((bytes[i] / 16) as nat));
            assert(hex(bytes)[2 * i + 1] == hex_digit((bytes[i] % 16) as nat));
        }
    }
}

/// A short hash is the first twelve digits of the digest.
pub proof fn short_hashes_start_the_digest(bytes: Seq<u8>)
    requires
        sha256(bytes).len() == 32,
    ensures
        short_hash(bytes) == hex(sha256(bytes)).take(12),
{
    let digest = sha256(bytes);
    hex_writes_every_byte(digest);
    hex_writes_every_byte(digest.take(6));
    assert forall|k: int| 0 <= k < 12 implies short_hash(bytes)[k] == hex(digest)[k] by {
        let i = k / 2;
        assert(digest.take(6)[i] == digest[i]);
        assert(k == 2 * i || k == 2 * i + 1);
    }
    assert(short_hash(bytes) =~= hex(digest).take(12));
}

}
