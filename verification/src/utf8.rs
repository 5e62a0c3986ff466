//! UTF-8 decoding of bytes that may be malformed or cut off.

use vstd::prelude::*;

verus! {

/// What stands in the decoded text for bytes that are no UTF-8: U+FFFD.
pub const REPLACEMENT: char = '\u{FFFD}';

/// `char::from_u32` gives the character whose scalar value is the number, for
/// every number that is a scalar value.
pub assume_specification[ char::from_u32 ](i: u32) -> (c: Option<char>)
    ensures
        c == (if vstd::utf8::is_scalar(i) {
            Some(i as char)
        } else {
            None
        }),
;

/// What the first bytes of a nonempty byte sequence are: a character, something
/// that no continuation could complete, or a character that is cut off.
pub enum First {
    Char { c: char, len: usize },
    Bad { len: usize },
    Partial,
}

/// How many bytes a character takes whose first byte is `b`; zero where no
/// character starts so.
pub open spec fn width(b: u8) -> int {
    if b <= 0x7f {
        1
    } else if 0xc2 <= b <= 0xdf {
        2
    } else if 0xe0 <= b <= 0xef {
        3
    } else if 0xf0 <= b <= 0xf4 {
        4
    } else {
        0
    }
}

/// Whether `second` may follow the first byte `b` of a character: a continuation
/// byte that makes the character neither overlong, nor a surrogate, nor too
/// large.
pub open spec fn second_fits(b: u8, second: u8) -> bool {
    &&& vstd::utf8::is_continuation_byte(second)
    &&& b == 0xe0 ==> second >= 0xa0
    &&& b == 0xed ==> second <= 0x9f
    &&& b == 0xf0 ==> second >= 0x90
    &&& b == 0xf4 ==> second <= 0x8f
}

/// What the first bytes of `bytes` are. A malformed sequence extends up to the
/// byte that makes it one.
pub open spec fn first(bytes: Seq<u8>) -> First {
    let w = width(bytes[0]);
    let c = vstd::utf8::decode_first_scalar(bytes) as char;
    if w == 0 {
        First::Bad { len: 1 }
    } else if w == 1 {
        First::Char { c, len: 1 }
    } else if bytes.len() < 2 {
        First::Partial
    } else if !second_fits(bytes[0], bytes[1]) {
        First::Bad { len: 1 }
    } else if w == 2 {
        First::Char { c, len: 2 }
    } else if bytes.len() < 3 {
        First::Partial
    } else if !vstd::utf8::is_continuation_byte(bytes[2]) {
        First::Bad { len: 2 }
    } else if w == 3 {
        First::Char { c, len: 3 }
    } else if bytes.len() < 4 {
        First::Partial
    } else if !vstd::utf8::is_continuation_byte(bytes[3]) {
        First::Bad { len: 3 }
    } else {
        First::Char { c, len: 4 }
    }
}

/// The text that `bytes` decode to as far as they are complete, with one
/// replacement character for each malformed sequence.
pub open spec fn complete_text(bytes: Seq<u8>) -> Seq<char>
    decreases bytes.len(),
{
    if bytes.len() == 0 {
        Seq::<char>::empty()
    } else {
        match first(bytes) {
            First::Char { c, len } => seq![c] + complete_text(bytes.skip(len as int)),
            First::Bad { len } => seq![REPLACEMENT] + complete_text(bytes.skip(len as int)),
            First::Partial => Seq::<char>::empty(),
        }
    }
}

/// The bytes at the end of `bytes` that start a character without completing it.
pub open spec fn held_back(bytes: Seq<u8>) -> Seq<u8>
    decreases bytes.len(),
{
    if bytes.len() == 0 {
        Seq::<u8>::empty()
    } else {
        match first(bytes) {
            First::Char { len, .. } => held_back(bytes.skip(len as int)),
            First::Bad { len } => held_back(bytes.skip(len as int)),
            First::Partial => bytes,
        }
    }
}

/// The text of `bytes` when nothing follows them: a character that is cut off
/// becomes one replacement character.
pub open spec fn lossy_text(bytes: Seq<u8>) -> Seq<char> {
    if held_back(bytes).len() == 0 {
        complete_text(bytes)
    } else {
        complete_text(bytes).push(REPLACEMENT)
    }
}

proof fn scalar_of_width_2(a: u8, b: u8)
    requires
        0xc0 <= a <= 0xdf,
        0x80 <= b <= 0xbf,
    ensures
        vstd::utf8::codepoint_width_2(a, b) < 0x800,
        vstd::utf8::codepoint_width_2(a, b) >= 0x80 <==> a >= 0xc2,
{
    assert(({
        let v = (((a & 0x1F) as u32) << 6) | ((b & 0x3f) as u32);
        v < 0x800 && (v >= 0x80 <==> a >= 0xc2)
    })) by (bit_vector)
        requires
            0xc0 <= a <= 0xdf,
            0x80 <= b <= 0xbf,
    ;
}

proof fn scalar_of_width_3(a: u8, b: u8, c: u8)
    requires
        0xe0 <= a <= 0xef,
        0x80 <= b <= 0xbf,
        0x80 <= c <= 0xbf,
    ensures
        vstd::utf8::codepoint_width_3(a, b, c) < 0x10000,
        ({
            let v = vstd::utf8::codepoint_width_3(a, b, c);
            v >= 0x800 && !(0xD800 <= v <= 0xDFFF) <==> (a == 0xe0 ==> b >= 0xa0) && (a == 0xed
                ==> b <= 0x9f)
        }),
{
    assert(({
        let v = (((a & 0x0F) as u32) << 12) | (((b & 0x3f) as u32) << 6) | ((c & 0x3f) as u32);
        v < 0x10000 && (v >= 0x800 && !(0xD800 <= v && v <= 0xDFFF) <==> (a != 0xe0 || b >= 0xa0)
            && (a != 0xed || b <= 0x9f))
    })) by (bit_vector)
        requires
            0xe0 <= a <= 0xef,
            0x80 <= b <= 0xbf,
            0x80 <= c <= 0xbf,
    ;
}

proof fn scalar_of_width_4(a: u8, b: u8, c: u8, d: u8)
    requires
        0xf0 <= a <= 0xf7,
        0x80 <= b <= 0xbf,
        0x80 <= c <= 0xbf,
        0x80 <= d <= 0xbf,
    ensures
        ({
            let v = vstd::utf8::codepoint_width_4(a, b, c, d);
            0x10000 <= v <= 0x10ffff <==> a <= 0xf4 && (a == 0xf0 ==> b >= 0x90) && (a == 0xf4
                ==> b <= 0x8f)
        }),
{
    assert(({
        let v = (((a & 0x07) as u32) << 18) | (((b & 0x3f) as u32) << 12) | (((c & 0x3f) as u32)
            << 6) | ((d & 0x3f) as u32);
        0x10000 <= v && v <= 0x10ffff <==> a <= 0xf4 && (a != 0xf0 || b >= 0x90) && (a != 0xf4 || b
            <= 0x8f)
    })) by (bit_vector)
        requires
            0xf0 <= a <= 0xf7,
            0x80 <= b <= 0xbf,
            0x80 <= c <= 0xbf,
            0x80 <= d <= 0xbf,
    ;
}

proof fn scalar_of_width_1(a: u8)
    requires
        a <= 0x7f,
    ensures
        vstd::utf8::codepoint_width_1(a) == a,
{
    assert((a & 0x7F) == a) by (bit_vector)
        requires
            a <= 0x7f,
    ;
}

/// A character starts the bytes exactly where a well-formed encoding of a scalar
/// value does, and it takes the bytes of that encoding.
pub proof fn first_char_is_scalar(bytes: Seq<u8>)
    requires
        bytes.len() > 0,
    ensures
        first(bytes) is Char <==> vstd::utf8::valid_first_scalar(bytes),
        first(bytes) matches First::Char { c, len } ==> {
            &&& len == vstd::utf8::length_of_first_scalar(bytes)
            &&& len <= bytes.len()
            &&& c == vstd::utf8::decode_first_scalar(bytes) as char
            &&& vstd::utf8::is_scalar(vstd::utf8::decode_first_scalar(bytes))
        },
        first(bytes) matches First::Bad { len } ==> 1 <= len <= bytes.len(),
{
    let a = bytes[0];
    if a <= 0x7f {
        scalar_of_width_1(a);
    } else if 0xc0 <= a <= 0xdf {
        if bytes.len() >= 2 && vstd::utf8::is_continuation_byte(bytes[1]) {
            scalar_of_width_2(a, bytes[1]);
        }
    } else if 0xe0 <= a <= 0xef {
        if bytes.len() >= 3 && vstd::utf8::is_continuation_byte(bytes[1])
            && vstd::utf8::is_continuation_byte(bytes[2]) {
            scalar_of_width_3(a, bytes[1], bytes[2]);
        }
    } else if 0xf0 <= a <= 0xf7 {
        if bytes.len() >= 4 && vstd::utf8::is_continuation_byte(bytes[1])
            && vstd::utf8::is_continuation_byte(bytes[2]) && vstd::utf8::is_continuation_byte(
            bytes[3],
        ) {
            scalar_of_width_4(a, bytes[1], bytes[2], bytes[3]);
        }
    }
}

proof fn first_is_stable(a: Seq<u8>, b: Seq<u8>)
    requires
        a.len() > 0,
        !(first(a) is Partial),
    ensures
        first(a + b) == first(a),
{
    let ab = a + b;
    assert(ab[0] == a[0]);
    if a.len() >= 2 {
        assert(ab[1] == a[1]);
    }
    if a.len() >= 3 {
        assert(ab[2] == a[2]);
    }
    if a.len() >= 4 {
        assert(ab[3] == a[3]);
    }
    first_char_is_scalar(a);
    assert(vstd::utf8::decode_first_scalar(ab) == vstd::utf8::decode_first_scalar(a) || first(a)
        is Bad);
}

/// Decoding in pieces: the text of two pieces is the text of the first followed
/// by the text of the second, where the second takes along what the first held
/// back.
pub proof fn decoding_is_incremental(a: Seq<u8>, b: Seq<u8>)
    ensures
        complete_text(a + b) == complete_text(a) + complete_text(held_back(a) + b),
        held_back(a + b) == held_back(held_back(a) + b),
    decreases a.len(),
{
    if a.len() == 0 {
        assert(a + b =~= b);
        assert(held_back(a) + b =~= b);
        assert(complete_text(a) + complete_text(b) =~= complete_text(b));
    } else {
        first_char_is_scalar(a);
        match first(a) {
            First::Partial => {
                assert(complete_text(a) + complete_text(a + b) =~= complete_text(a + b));
            },
            First::Char { c, len } => {
                first_is_stable(a, b);
                assert((a + b).skip(len as int) =~= a.skip(len as int) + b);
                decoding_is_incremental(a.skip(len as int), b);
                assert(complete_text(a + b) =~= complete_text(a) + complete_text(
                    held_back(a) + b,
                ));
            },
            First::Bad { len } => {
                first_is_stable(a, b);
                assert((a + b).skip(len as int) =~= a.skip(len as int) + b);
                decoding_is_incremental(a.skip(len as int), b);
                assert(complete_text(a + b) =~= complete_text(a) + complete_text(
                    held_back(a) + b,
                ));
            },
        }
    }
}

/// What is held back is a character that is cut off, or nothing.
pub proof fn held_back_is_partial(bytes: Seq<u8>)
    ensures
        held_back(bytes).len() == 0 || first(held_back(bytes)) is Partial,
        held_back(bytes).len() <= 3,
        held_back(held_back(bytes)) == held_back(bytes),
        complete_text(held_back(bytes)) == Seq::<char>::empty(),
    decreases bytes.len(),
{
    if bytes.len() > 0 {
        first_char_is_scalar(bytes);
        match first(bytes) {
            First::Partial => {},
            First::Char { len, .. } => held_back_is_partial(bytes.skip(len as int)),
            First::Bad { len } => held_back_is_partial(bytes.skip(len as int)),
        }
    }
}

/// Well-formed UTF-8 decodes to the text that it encodes, and nothing is held
/// back.
pub proof fn valid_bytes_decode_exactly(bytes: Seq<u8>)
    requires
        vstd::utf8::valid_utf8(bytes),
    ensures
        complete_text(bytes) == vstd::utf8::decode_utf8(bytes),
        held_back(bytes).len() == 0,
        lossy_text(bytes) == vstd::utf8::decode_utf8(bytes),
    decreases bytes.len(),
{
    if bytes.len() > 0 {
        first_char_is_scalar(bytes);
        let len = vstd::utf8::length_of_first_scalar(bytes);
        assert(bytes.skip(len) =~= vstd::utf8::pop_first_scalar(bytes));
        valid_bytes_decode_exactly(vstd::utf8::pop_first_scalar(bytes));
    }
}

fn is_continuation(b: u8) -> (yes: bool)
    ensures
        yes == vstd::utf8::is_continuation_byte(b),
{
    b >= 0x80 && b <= 0xbf
}

fn char_of(v: u32) -> (c: char)
    requires
        vstd::utf8::is_scalar(v),
    ensures
        c == v as char,
{
    match char::from_u32(v) {
        Some(c) => c,
        None => REPLACEMENT,
    }
}

/// What the bytes of `bytes` from position `at` on start with.
pub fn first_at(bytes: &[u8], at: usize) -> (out: First)
    requires
        at < bytes@.len(),
    ensures
        out == first(bytes@.skip(at as int)),
{
    let ghost rest = bytes@.skip(at as int);
    proof {
        first_char_is_scalar(rest);
    }
    let left: usize = bytes.len() - at;
    let a: u8 = bytes[at];
    if a <= 0x7f {
        return First::Char { c: char_of((a & 0x7f) as u32), len: 1 };
    }
    if a < 0xc2 || a > 0xf4 {
        return First::Bad { len: 1 };
    }
    if left < 2 {
        return First::Partial;
    }
    let b: u8 = bytes[at + 1];
    let fits = is_continuation(b) && (a != 0xe0 || b >= 0xa0) && (a != 0xed || b <= 0x9f) && (a
        != 0xf0 || b >= 0x90) && (a != 0xf4 || b <= 0x8f);
    if !fits {
        return First::Bad { len: 1 };
    }
    if a <= 0xdf {
        let v: u32 = (((a & 0x1f) as u32) << 6) | (b & 0x3f) as u32;
        return First::Char { c: char_of(v), len: 2 };
    }
    if left < 3 {
        return First::Partial;
    }
    let c: u8 = bytes[at + 2];
    if !is_continuation(c) {
        return First::Bad { len: 2 };
    }
    if a <= 0xef {
        let v: u32 = (((a & 0x0f) as u32) << 12) | (((b & 0x3f) as u32) << 6) | (c & 0x3f) as u32;
        return First::Char { c: char_of(v), len: 3 };
    }
    if left < 4 {
        return First::Partial;
    }
    let d: u8 = bytes[at + 3];
    if !is_continuation(d) {
        return First::Bad { len: 3 };
    }
    let v: u32 = (((a & 0x07) as u32) << 18) | (((b & 0x3f) as u32) << 12) | (((c & 0x3f) as u32)
        << 6) | (d & 0x3f) as u32;
    First::Char { c: char_of(v), len: 4 }
}

/// Decodes `bytes` as far as they are complete: the text, and the position from
/// which bytes are held back.
pub fn decode_complete(bytes: &[u8]) -> (out: (String, usize))
    ensures
        out.0@ == complete_text(bytes@),
        out.1 <= bytes@.len(),
        bytes@.skip(out.1 as int) == held_back(bytes@),
{
    let n: usize = bytes.len();
    let mut text = String::new();
    let mut i: usize = 0;
    assert(bytes@.skip(0) =~= bytes@);
    while i < n
        invariant
            i <= n,
            n == bytes@.len(),
            complete_text(bytes@) =~= text@ + complete_text(bytes@.skip(i as int)),
            held_back(bytes@) == held_back(bytes@.skip(i as int)),
        decreases n - i,
    {
        let ghost rest = bytes@.skip(i as int);
        proof {
            first_char_is_scalar(rest);
        }
        match first_at(bytes, i) {
            First::Char { c, len } => {
                assert(rest.skip(len as int) =~= bytes@.skip(i + len));
                text.push(c);
                i += len;
            },
            First::Bad { len } => {
                assert(rest.skip(len as int) =~= bytes@.skip(i + len));
                text.push(REPLACEMENT);
                i += len;
            },
            First::Partial => {
                assert(text@ + Seq::<char>::empty() =~= text@);
                return (text, i);
            },
        }
    }
    assert(bytes@.skip(i as int) =~= Seq::<u8>::empty());
    assert(text@ + Seq::<char>::empty() =~= text@);
    (text, i)
}

/// The text of `bytes`, with one replacement character for each malformed or
/// cut-off sequence.
pub fn decode_lossy(bytes: &[u8]) -> (out: String)
    ensures
        out@ == lossy_text(bytes@),
{
    let (mut text, at) = decode_complete(bytes);
    if at < bytes.len() {
        text.push(REPLACEMENT);
    }
    text
}

/// The text that `bytes` encode, if they are well-formed UTF-8.
pub fn decode_strict(bytes: &[u8]) -> (out: Option<String>)
    ensures
        match out {
            Some(s) => vstd::utf8::valid_utf8(bytes@) && s@ == vstd::utf8::decode_utf8(bytes@),
            None => !vstd::utf8::valid_utf8(bytes@),
        },
{
    let n: usize = bytes.len();
    let mut text = String::new();
    let mut i: usize = 0;
    assert(bytes@.skip(0) =~= bytes@);
    while i < n
        invariant
            i <= n,
            n == bytes@.len(),
            vstd::utf8::valid_utf8(bytes@) <==> vstd::utf8::valid_utf8(bytes@.skip(i as int)),
            vstd::utf8::valid_utf8(bytes@) ==> vstd::utf8::decode_utf8(bytes@) =~= text@
                + vstd::utf8::decode_utf8(bytes@.skip(i as int)),
        decreases n - i,
    {
        let ghost rest = bytes@.skip(i as int);
        proof {
            first_char_is_scalar(rest);
        }
        match first_at(bytes, i) {
            First::Char { c, len } => {
                assert(vstd::utf8::pop_first_scalar(rest) =~= bytes@.skip(i + len));
                text.push(c);
                i += len;
            },
            _ => {
                return None;
            },
        }
    }
    assert(bytes@.skip(i as int) =~= Seq::<u8>::empty());
    Some(text)
}

/// Decodes a stream of bytes that arrives in pieces. A character that a piece
/// cuts off is held back until the next piece completes it.
pub struct Utf8Decoder {
    pending: Vec<u8>,
}

impl View for Utf8Decoder {
    type V = Seq<u8>;

    /// The bytes that are held back.
    closed spec fn view(&self) -> Seq<u8> {
        self.pending@
    }
}

impl Utf8Decoder {
    /// What is held back is a character that is cut off, or nothing.
    pub open spec fn wf(&self) -> bool {
        held_back(self@) == self@
    }

    pub fn new() -> (d: Self)
        ensures
            d.wf(),
            d@ == Seq::<u8>::empty(),
    {
        let d = Utf8Decoder { pending: Vec::new() };
        assert(held_back(d@) =~= d@);
        d
    }

    /// Takes the next piece of the stream. Returns the text that is complete now,
    /// or `None` if there is none.
    pub fn feed(&mut self, bytes: &[u8]) -> (out: Option<String>)
        requires
            old(self).wf(),
        ensures
            final(self).wf(),
            final(self)@ == held_back(old(self)@ + bytes@),
            match out {
                Some(text) => text@.len() > 0 && text@ == complete_text(old(self)@ + bytes@),
                None => complete_text(old(self)@ + bytes@).len() == 0,
            },
    {
        let ghost all = self.pending@ + bytes@;
        self.pending.extend_from_slice(bytes);
        assert(self.pending@ =~= all);
        let (text, at) = decode_complete(self.pending.as_slice());
        let rest = vstd::slice::slice_subrange(self.pending.as_slice(), at, self.pending.len());
        let rest = vstd::slice::slice_to_vec(rest);
        self.pending = rest;
        proof {
            assert(self.pending@ =~= all.skip(at as int));
            held_back_is_partial(all);
        }
        if text.as_str().is_empty() {
            None
        } else {
            Some(text)
        }
    }

    /// Ends the stream. Returns one replacement character for a character that
    /// was cut off, or `None` if nothing was held back.
    pub fn flush(&mut self) -> (out: Option<String>)
        requires
            old(self).wf(),
        ensures
            final(self).wf(),
            final(self)@ == Seq::<u8>::empty(),
            match out {
                Some(text) => old(self)@.len() > 0 && text@ == seq![REPLACEMENT],
                None => old(self)@.len() == 0,
            },
    {
        if self.pending.len() == 0 {
            assert(self.pending@ =~= Seq::<u8>::empty());
            return None;
        }
        let text = decode_lossy(self.pending.as_slice());
        proof {
            held_back_is_partial(self.pending@);
            assert(lossy_text(self.pending@) =~= seq![REPLACEMENT]);
        }
        self.pending = Vec::new();
        assert(held_back(self.pending@) =~= self.pending@);
        Some(text)
    }
}

/// Text in front of other bytes decodes to itself, and what follows decodes as it
/// does alone.
pub proof fn text_in_front_is_kept(text: Seq<char>, rest: Seq<u8>)
    ensures
        complete_text(vstd::utf8::encode_utf8(text) + rest) == text + complete_text(rest),
        held_back(vstd::utf8::encode_utf8(text) + rest) == held_back(rest),
        lossy_text(vstd::utf8::encode_utf8(text) + rest) == text + lossy_text(rest),
{
    let a = vstd::utf8::encode_utf8(text);
    vstd::utf8::encode_utf8_valid_utf8(text);
    vstd::utf8::encode_utf8_decode_utf8(text);
    valid_bytes_decode_exactly(a);
    decoding_is_incremental(a, rest);
    assert(held_back(a) + rest =~= rest);
    assert(lossy_text(a + rest) =~= text + lossy_text(rest));
}

/// Bytes that cannot stand where they do are not dropped: each becomes U+FFFD,
/// together with what it starts of a character, and what follows decodes as it
/// does alone.
pub proof fn malformed_bytes_are_replaced(bytes: Seq<u8>)
    requires
        bytes.len() > 0,
    ensures
        ({
            let b = bytes;
            let lone = |k: int|
                complete_text(b) == seq!['\u{fffd}'] + complete_text(b.skip(k)) && lossy_text(b)
                    == seq!['\u{fffd}'] + lossy_text(b.skip(k));
            let more = |i: int| 0x80 <= b[i] <= 0xbf;
            let second = more(1) && (b[0] == 0xe0 ==> b[1] >= 0xa0) && (b[0] == 0xed ==> b[1]
                <= 0x9f) && (b[0] == 0xf0 ==> b[1] >= 0x90) && (b[0] == 0xf4 ==> b[1] <= 0x8f);
            &&& 0x80 <= b[0] <= 0xc1 || b[0] >= 0xf5 ==> lone(1)
            &&& 0xc2 <= b[0] <= 0xf4 && b.len() > 1 && !second ==> lone(1)
            &&& 0xe0 <= b[0] <= 0xf4 && b.len() > 2 && second && !more(2) ==> lone(2)
            &&& 0xf0 <= b[0] <= 0xf4 && b.len() > 3 && second && more(2) && !more(3) ==> lone(3)
        }),
{
    if first(bytes) is Bad {
        let len = first(bytes)->Bad_len as int;
        first_char_is_scalar(bytes);
        assert(complete_text(bytes) == seq!['\u{fffd}'] + complete_text(bytes.skip(len)));
        assert(held_back(bytes) == held_back(bytes.skip(len)));
        assert(lossy_text(bytes) =~= seq!['\u{fffd}'] + lossy_text(bytes.skip(len)));
    }
}

/// A character that is cut off is held back until the rest of it comes; where none
/// comes it becomes one U+FFFD.
pub proof fn cut_characters_are_held_back(c: char, k: int)
    requires
        0 < k < vstd::utf8::encode_utf8(seq![c]).len(),
    ensures
        ({
            let start = vstd::utf8::encode_utf8(seq![c]).take(k);
            &&& held_back(start) == start
            &&& complete_text(start).len() == 0
            &&& lossy_text(start) == seq!['\u{fffd}']
        }),
{
    let whole = vstd::utf8::encode_utf8(seq![c]);
    let start = whole.take(k);
    let rest = whole.skip(k);
    assert(start + rest =~= whole);
    vstd::utf8::encode_utf8_valid_utf8(seq![c]);
    vstd::utf8::encode_utf8_decode_utf8(seq![c]);
    vstd::utf8::encode_utf8_first_scalar(seq![c]);
    first_char_is_scalar(start);
    first_char_is_scalar(whole);
    if !(first(start) is Partial) {
        first_is_stable(start, rest);
        assert(first(whole) is Char);
        let len = vstd::utf8::length_of_first_scalar(whole);
        assert(len <= k);
        let after = vstd::utf8::pop_first_scalar(whole);
        assert(after.len() > 0);
        assert(vstd::utf8::decode_utf8(whole).len() == 1 + vstd::utf8::decode_utf8(after).len());
        assert(vstd::utf8::decode_utf8(after).len() > 0);
        assert(false);
    }
    assert(complete_text(start) =~= Seq::<char>::empty());
    assert(lossy_text(start) =~= seq!['\u{fffd}']);
}

}
