//! Character sequences: the text helpers that the other modules build on.
//!
//! Contracts speak of text through its view, the sequence of its characters.

use vstd::prelude::*;

verus! {

/// `String::push` appends one character to the end of the string.
pub assume_specification[ String::push ](s: &mut String, ch: char)
    ensures
        final(s)@ == old(s)@.push(ch),
;

/// The characters of `s`, in order.
pub fn chars_of(s: &str) -> (out: Vec<char>)
    ensures
        out@ == s@,
{
    let mut out: Vec<char> = Vec::new();
    for c in it: s.chars()
        invariant
            out@ =~= it.seq().take(it.index() as int),
            it.seq() == s@,
    {
        out.push(c);
    }
    assert(s@.take(s@.len() as int) =~= s@);
    out
}

/// The string made of the characters of `chars`.
pub fn string_of(chars: &[char]) -> (out: String)
    ensures
        out@ == chars@,
{
    let mut out = String::new();
    let n: usize = chars.len();
    let mut i: usize = 0;
    while i < n
        invariant
            i <= n,
            n == chars@.len(),
            out@ =~= chars@.take(i as int),
        decreases n - i,
    {
        out.push(chars[i]);
        i += 1;
    }
    assert(chars@.take(n as int) =~= chars@);
    out
}

/// Whether two strings hold the same characters.
pub fn str_eq(a: &str, b: &str) -> (same: bool)
    ensures
        same == (a@ == b@),
{
    let x = a.as_bytes();
    let y = b.as_bytes();
    let same = bytes_eq(x, y);
    proof {
        vstd::utf8::encode_utf8_decode_utf8(a@);
        vstd::utf8::encode_utf8_decode_utf8(b@);
    }
    same
}

/// Whether two byte slices hold the same bytes.
pub fn bytes_eq(x: &[u8], y: &[u8]) -> (same: bool)
    ensures
        same == (x@ == y@),
{
    if x.len() != y.len() {
        return false;
    }
    let n: usize = x.len();
    let mut i: usize = 0;
    while i < n
        invariant
            i <= n,
            n == x@.len(),
            n == y@.len(),
            forall|j: int| 0 <= j < i ==> x@[j] == y@[j],
        decreases n - i,
    {
        if x[i] != y[i] {
            return false;
        }
        i += 1;
    }
    assert(x@ =~= y@);
    true
}

/// `a` followed by `b`.
pub fn concat(a: &str, b: &str) -> (out: String)
    ensures
        out@ == a@ + b@,
{
    let mut out = a.to_owned();
    out.append(b);
    out
}

/// `a`, `b` and `c`, one after the other.
pub fn concat3(a: &str, b: &str, c: &str) -> (out: String)
    ensures
        out@ == a@ + b@ + c@,
{
    let mut out = a.to_owned();
    out.append(b);
    out.append(c);
    out
}

/// `a`, `b`, `c`, `d` and `e`, one after the other.
pub fn concat5(a: &str, b: &str, c: &str, d: &str, e: &str) -> (out: String)
    ensures
        out@ == a@ + b@ + c@ + d@ + e@,
{
    let mut out = a.to_owned();
    out.append(b);
    out.append(c);
    out.append(d);
    out.append(e);
    out
}

/// Whether `c` is one of the ten ASCII digits.
pub open spec fn is_digit(c: char) -> bool {
    '0' <= c && c <= '9'
}

/// The number that a run of decimal digits denotes.
pub open spec fn digits_value(digits: Seq<char>) -> nat
    decreases digits.len(),
{
    if digits.len() == 0 {
        0
    } else {
        digits_value(digits.drop_last()) * 10 + (digits.last() as nat - '0' as nat) as nat
    }
}

/// The digit character for a value below ten.
pub open spec fn digit_char(d: nat) -> char {
    ('0' as nat + d) as char
}

/// The decimal representation of `n`, without leading zeros.
pub open spec fn decimal(n: nat) -> Seq<char>
    decreases n,
{
    if n < 10 {
        seq![digit_char(n)]
    } else {
        decimal(n / 10).push(digit_char(n % 10))
    }
}

/// The decimal representation denotes the number it was made from, and it is
/// made of digits alone.
pub proof fn decimal_denotes(n: nat)
    ensures
        digits_value(decimal(n)) == n,
        decimal(n).len() > 0,
        forall|i: int| 0 <= i < decimal(n).len() ==> is_digit(#[trigger] decimal(n)[i]),
    decreases n,
{
    if n < 10 {
        assert(decimal(n).drop_last() =~= Seq::<char>::empty());
        assert(digits_value(Seq::<char>::empty()) == 0);
    } else {
        decimal_denotes(n / 10);
        assert(decimal(n).drop_last() =~= decimal(n / 10));
    }
}

fn digit_of(d: u64) -> (c: char)
    requires
        d < 10,
    ensures
        c == digit_char(d as nat),
{
    ((48 + d) as u8) as char
}

/// The decimal representation of `n`.
pub fn decimal_u64(n: u64) -> (out: String)
    ensures
        out@ == decimal(n as nat),
    decreases n,
{
    if n < 10 {
        let mut out = String::new();
        out.push(digit_of(n));
        assert(out@ =~= decimal(n as nat));
        out
    } else {
        let mut out = decimal_u64(n / 10);
        out.push(digit_of(n % 10));
        out
    }
}

/// The pieces of `s` between the occurrences of `sep`: one more piece than
/// there are occurrences.
pub open spec fn split(s: Seq<char>, sep: char) -> Seq<Seq<char>>
    decreases s.len(),
{
    if s.len() == 0 {
        seq![Seq::<char>::empty()]
    } else {
        let front = split(s.drop_last(), sep);
        if s.last() == sep {
            front.push(Seq::<char>::empty())
        } else {
            front.drop_last().push(front.last().push(s.last()))
        }
    }
}

/// The pieces with `sep` between each two neighbours.
pub open spec fn join(pieces: Seq<Seq<char>>, sep: Seq<char>) -> Seq<char>
    decreases pieces.len(),
{
    if pieces.len() == 0 {
        Seq::<char>::empty()
    } else if pieces.len() == 1 {
        pieces[0]
    } else {
        join(pieces.drop_last(), sep) + sep + pieces.last()
    }
}

/// The views of the strings of a sequence.
pub open spec fn views(strings: Seq<String>) -> Seq<Seq<char>> {
    strings.map_values(|s: String| s@)
}

/// Splitting yields at least one piece, no piece holds the separator, and
/// joining the pieces gives the text back.
pub proof fn split_join(s: Seq<char>, sep: char)
    ensures
        split(s, sep).len() > 0,
        join(split(s, sep), seq![sep]) == s,
        forall|i: int|
            0 <= i < split(s, sep).len() ==> !(#[trigger] split(s, sep)[i]).contains(sep),
    decreases s.len(),
{
    if s.len() > 0 {
        let front = split(s.drop_last(), sep);
        let all = split(s, sep);
        split_join(s.drop_last(), sep);
        if s.last() == sep {
            assert(all.drop_last() =~= front);
            assert(join(all, seq![sep]) =~= s);
        } else {
            assert(all.drop_last() =~= front.drop_last());
            assert(join(front, seq![sep]) == s.drop_last());
            if front.len() == 1 {
                assert(all[0] =~= s);
            } else {
                assert(join(all, seq![sep]) =~= join(front, seq![sep]).push(s.last()));
                assert(join(all, seq![sep]) =~= s);
            }
            assert(!front.last().contains(sep));
            let piece = front.last().push(s.last());
            assert forall|k: int| 0 <= k < piece.len() implies piece[k] != sep by {
                if k < front.last().len() {
                    assert(front.last().contains(front.last()[k]));
                }
            }
        }
    }
}

/// Joining splits again into the same pieces, as long as no piece holds the
/// separator.
pub proof fn join_split(pieces: Seq<Seq<char>>, sep: char)
    requires
        pieces.len() > 0,
        forall|i: int| 0 <= i < pieces.len() ==> !(#[trigger] pieces[i]).contains(sep),
    ensures
        split(join(pieces, seq![sep]), sep) == pieces,
    decreases pieces.len(), pieces.last().len(),
{
    let last = pieces.last();
    let whole = join(pieces, seq![sep]);
    if last.len() == 0 {
        if pieces.len() == 1 {
            assert(whole =~= Seq::<char>::empty());
            assert(pieces[0] =~= Seq::<char>::empty());
            assert(split(whole, sep) =~= pieces);
        } else {
            join_split(pieces.drop_last(), sep);
            assert(whole.drop_last() =~= join(pieces.drop_last(), seq![sep]));
            assert(whole.last() == sep);
            assert(last =~= Seq::<char>::empty());
            assert(split(whole, sep) =~= pieces);
        }
    } else {
        let shorter = pieces.drop_last().push(last.drop_last());
        assert forall|i: int| 0 <= i < shorter.len() implies !(#[trigger] shorter[i]).contains(
            sep,
        ) by {
            if i < pieces.len() - 1 {
                assert(shorter[i] == pieces[i]);
            } else {
                assert forall|k: int| 0 <= k < shorter[i].len() implies shorter[i][k] != sep by {
                    assert(pieces[i].contains(last[k]));
                }
            }
        }
        join_split(shorter, sep);
        assert(shorter.drop_last() =~= pieces.drop_last());
        assert(whole.drop_last() =~= join(shorter, seq![sep]));
        assert(whole.last() == last.last());
        assert(pieces[pieces.len() - 1].contains(last.last()));
        assert(last.drop_last().push(last.last()) =~= last);
        assert(split(whole, sep) =~= pieces);
    }
}

/// The pieces of `chars` between the occurrences of `sep`.
pub fn split_chars(chars: &[char], sep: char) -> (out: Vec<Vec<char>>)
    ensures
        out@.map_values(|piece: Vec<char>| piece@) == split(chars@, sep),
{
    let mut out: Vec<Vec<char>> = Vec::new();
    let mut piece: Vec<char> = Vec::new();
    let n: usize = chars.len();
    let mut i: usize = 0;
    assert(out@.map_values(|p: Vec<char>| p@).push(piece@) =~= split(chars@.take(0), sep));
    while i < n
        invariant
            i <= n,
            n == chars@.len(),
            out@.map_values(|p: Vec<char>| p@).push(piece@) == split(chars@.take(i as int), sep),
        decreases n - i,
    {
        let ghost before = out@.map_values(|p: Vec<char>| p@);
        let ghost piece_before = piece@;
        let c = chars[i];
        if c == sep {
            out.push(piece);
            piece = Vec::new();
        } else {
            piece.push(c);
        }
        proof {
            let now = chars@.take(i + 1);
            assert(now.drop_last() =~= chars@.take(i as int));
            let front = split(now.drop_last(), sep);
            assert(front.last() == piece_before);
            assert(front.drop_last() =~= before);
            assert(out@.map_values(|p: Vec<char>| p@).push(piece@) =~= split(now, sep));
        }
        i += 1;
    }
    let ghost before = out@.map_values(|p: Vec<char>| p@);
    out.push(piece);
    assert(chars@.take(n as int) =~= chars@);
    assert(out@.map_values(|p: Vec<char>| p@) =~= before.push(piece@));
    out
}

/// The strings of `pieces` with `sep` between each two neighbours.
pub fn join_strings(pieces: &Vec<String>, sep: &str) -> (out: String)
    ensures
        out@ == join(views(pieces@), sep@),
{
    let mut out = String::new();
    let n: usize = pieces.len();
    let mut i: usize = 0;
    while i < n
        invariant
            i <= n,
            n == pieces@.len(),
            out@ =~= join(views(pieces@).take(i as int), sep@),
        decreases n - i,
    {
        if i > 0 {
            out.append(sep);
        }
        out.append(pieces[i].as_str());
        proof {
            let now = views(pieces@).take(i + 1);
            assert(now.drop_last() =~= views(pieces@).take(i as int));
            assert(now.last() == pieces@[i as int]@);
        }
        i += 1;
    }
    assert(views(pieces@).take(n as int) =~= views(pieces@));
    out
}

/// A copy of the strings.
pub fn copy_strings(strings: &Vec<String>) -> (out: Vec<String>)
    ensures
        out@ == strings@,
{
    let mut out: Vec<String> = Vec::new();
    let n: usize = strings.len();
    let mut i: usize = 0;
    while i < n
        invariant
            i <= n,
            n == strings@.len(),
            out@ =~= strings@.take(i as int),
        decreases n - i,
    {
        out.push(strings[i].clone());
        i += 1;
    }
    assert(strings@.take(n as int) =~= strings@);
    out
}

/// A copy of the bytes.
pub fn copy_bytes(bytes: &[u8]) -> (out: Vec<u8>)
    ensures
        out@ == bytes@,
{
    vstd::slice::slice_to_vec(bytes)
}

/// Whether `c` has the Unicode property `White_Space`.
pub open spec fn white_space(c: char) -> bool {
    ||| '\u{9}' <= c <= '\u{d}'
    ||| c == ' '
    ||| c == '\u{85}'
    ||| c == '\u{a0}'
    ||| c == '\u{1680}'
    ||| '\u{2000}' <= c <= '\u{200a}'
    ||| c == '\u{2028}'
    ||| c == '\u{2029}'
    ||| c == '\u{202f}'
    ||| c == '\u{205f}'
    ||| c == '\u{3000}'
}

/// Whether `c` is white space.
pub fn is_white_space(c: char) -> (yes: bool)
    ensures
        yes == white_space(c),
{
    ('\u{9}' <= c && c <= '\u{d}') || c == ' ' || c == '\u{85}' || c == '\u{a0}' || c
        == '\u{1680}' || ('\u{2000}' <= c && c <= '\u{200a}') || c == '\u{2028}' || c == '\u{2029}'
        || c == '\u{202f}' || c == '\u{205f}' || c == '\u{3000}'
}

/// Whether the text is white space alone.
pub open spec fn is_blank(s: Seq<char>) -> bool {
    forall|i: int| 0 <= i < s.len() ==> white_space(#[trigger] s[i])
}

/// Whether `[a, b)` is what white space at both ends of `s` leaves.
pub open spec fn is_trimmed_range(s: Seq<char>, a: int, b: int) -> bool {
    &&& 0 <= a <= b <= s.len()
    &&& forall|i: int| 0 <= i < a || b <= i < s.len() ==> white_space(#[trigger] s[i])
    &&& a < b ==> !white_space(s[a]) && !white_space(s[b - 1])
}

/// The text without the white space at its ends.
pub open spec fn trimmed(s: Seq<char>) -> Seq<char> {
    let (a, b) = choose|a: int, b: int| is_trimmed_range(s, a, b);
    s.subrange(a, b)
}

/// Whether the text is white space alone.
pub fn blank(s: &str) -> (yes: bool)
    ensures
        yes == is_blank(s@),
{
    let chars = chars_of(s);
    let n: usize = chars.len();
    let mut i: usize = 0;
    while i < n
        invariant
            i <= n,
            n == chars@.len(),
            chars@ == s@,
            forall|j: int| 0 <= j < i ==> white_space(#[trigger] s@[j]),
        decreases n - i,
    {
        if !is_white_space(chars[i]) {
            assert(!white_space(s@[i as int]));
            return false;
        }
        i += 1;
    }
    true
}

proof fn trimmed_is(s: Seq<char>, a: int, b: int)
    requires
        is_trimmed_range(s, a, b),
    ensures
        trimmed(s) == s.subrange(a, b),
{
    let (c, d) = choose|c: int, d: int| is_trimmed_range(s, c, d);
    assert(is_trimmed_range(s, c, d));
    if a < b {
        assert(!white_space(s[a]) && !white_space(s[b - 1]));
        assert(c < d);
        assert(!white_space(s[c]) && !white_space(s[d - 1]));
        assert(a == c && b == d);
    } else {
        assert(c == d) by {
            if c < d {
                assert(!white_space(s[c]));
                assert(c < a || b <= c);
            }
        }
        assert(s.subrange(a, b) =~= s.subrange(c, d));
    }
}

/// The text without the white space at its ends.
pub fn trim(s: &str) -> (out: String)
    ensures
        out@ == trimmed(s@),
{
    let chars = chars_of(s);
    let n: usize = chars.len();
    let mut a: usize = 0;
    while a < n && is_white_space(chars[a])
        invariant
            a <= n,
            n == chars@.len(),
            chars@ == s@,
            forall|j: int| 0 <= j < a ==> white_space(#[trigger] s@[j]),
        decreases n - a,
    {
        a += 1;
    }
    let mut b: usize = n;
    while b > a && is_white_space(chars[b - 1])
        invariant
            a <= b <= n,
            n == chars@.len(),
            chars@ == s@,
            forall|j: int| b <= j < n ==> white_space(#[trigger] s@[j]),
        decreases b,
    {
        b -= 1;
    }
    let mid = vstd::slice::slice_subrange(chars.as_slice(), a, b);
    proof {
        assert(is_trimmed_range(s@, a as int, b as int));
        trimmed_is(s@, a as int, b as int);
    }
    string_of(mid)
}

/// A longer run of digits denotes no smaller number.
proof fn digits_value_grows(digits: Seq<char>, i: int, k: int)
    requires
        0 <= i <= k <= digits.len(),
        forall|j: int| 0 <= j < digits.len() ==> is_digit(#[trigger] digits[j]),
    ensures
        digits_value(digits.take(i)) <= digits_value(digits.take(k)),
    decreases k - i,
{
    if i < k {
        digits_value_grows(digits, i, k - 1);
        assert(digits.take(k).drop_last() =~= digits.take(k - 1));
    }
}

/// The number that a run of digits denotes, if it is one and the number fits.
pub fn parse_digits(digits: &[char]) -> (out: Option<u64>)
    requires
        digits@.len() > 0,
    ensures
        match out {
            Some(n) => (forall|i: int| 0 <= i < digits@.len() ==> is_digit(#[trigger] digits@[i]))
                && n == digits_value(digits@),
            None => (exists|i: int| 0 <= i < digits@.len() && !is_digit(#[trigger] digits@[i]))
                || digits_value(digits@) > u64::MAX,
        },
{
    let n: usize = digits.len();
    let mut k: usize = 0;
    while k < n
        invariant
            k <= n,
            n == digits@.len(),
            forall|j: int| 0 <= j < k ==> is_digit(#[trigger] digits@[j]),
        decreases n - k,
    {
        if digits[k] < '0' || digits[k] > '9' {
            assert(!is_digit(digits@[k as int]));
            return None;
        }
        k += 1;
    }
    let mut value: u64 = 0;
    let mut i: usize = 0;
    while i < n
        invariant
            i <= n,
            n == digits@.len(),
            forall|j: int| 0 <= j < n ==> is_digit(#[trigger] digits@[j]),
            value == digits_value(digits@.take(i as int)),
        decreases n - i,
    {
        let c = digits[i];
        assert(is_digit(c));
        let d: u64 = (c as u32 - '0' as u32) as u64;
        proof {
            assert(digits@.take(i + 1).drop_last() =~= digits@.take(i as int));
            assert(digits@.take(i + 1).last() == c);
            assert(digits_value(digits@.take(i + 1)) == value * 10 + d);
            digits_value_grows(digits@, i + 1, n as int);
            assert(digits@.take(n as int) =~= digits@);
        }
        if value > (u64::MAX - d) / 10 {
            return None;
        }
        value = value * 10 + d;
        i += 1;
    }
    assert(digits@.take(n as int) =~= digits@);
    Some(value)
}

/// What a line of the connection holds, if anything: the line without the white
/// space at its ends.
pub fn message_line(line: &str) -> (out: Option<String>)
    ensures
        match out {
            Some(s) => s@ == trimmed(line@) && s@.len() > 0,
            None => trimmed(line@).len() == 0,
        },
{
    let s = trim(line);
    if s.as_str().is_empty() {
        None
    } else {
        Some(s)
    }
}

/// Joining puts the separator between each two pieces and nowhere else.
pub proof fn joining_puts_the_separator_between(
    a: Seq<Seq<char>>,
    b: Seq<Seq<char>>,
    sep: Seq<char>,
)
    ensures
        join(Seq::empty(), sep) == Seq::<char>::empty(),
        a.len() == 1 ==> join(a, sep) == a[0],
        a.len() > 0 && b.len() > 0 ==> join(a + b, sep) == join(a, sep) + sep + join(b, sep),
    decreases b.len(),
{
    if a.len() > 0 && b.len() > 0 {
        assert((a + b).drop_last() =~= a + b.drop_last());
        if b.len() == 1 {
            assert(a + b.drop_last() =~= a);
        } else {
            joining_puts_the_separator_between(a, b.drop_last(), sep);
            assert(join(a + b, sep) =~= join(a, sep) + sep + join(b, sep));
        }
    }
}

/// A number is written in decimal digits without a leading zero, and each digit
/// stands for what it is worth.
pub proof fn numbers_are_written_in_decimal(n: nat, digits: Seq<char>, c: char)
    ensures
        decimal(n).len() > 1 ==> decimal(n)[0] != '0',
        n < 10 ==> decimal(n) == seq!["0123456789"@[n as int]],
        n >= 10 ==> decimal(n) == decimal(n / 10).push("0123456789"@[(n % 10) as int]),
        '0' <= c <= '9' ==> digits_value(digits.push(c)) == digits_value(digits) * 10 + (c as int
            - '0' as int),
        digits_value(Seq::empty()) == 0,
    decreases n,
{
    reveal_strlit("0123456789");
    assert(digits.push(c).drop_last() =~= digits);
    if n >= 10 {
        numbers_are_written_in_decimal(n / 10, digits, c);
        decimal_denotes(n / 10);
        assert(decimal(n)[0] == decimal(n / 10)[0]);
        if n / 10 < 10 {
            assert(decimal(n / 10)[0] == digit_char(n / 10));
        }
    }
}

/// Trimming takes the white space off both ends and nothing else.
pub proof fn trimming_takes_white_space_off(before: Seq<char>, core: Seq<char>, after: Seq<char>)
    requires
        forall|i: int| 0 <= i < before.len() ==> white_space(#[trigger] before[i]),
        forall|i: int| 0 <= i < after.len() ==> white_space(#[trigger] after[i]),
        core.len() > 0 ==> !white_space(core[0]) && !white_space(core.last()),
    ensures
        trimmed(before + core + after) == core,
        white_space(' ') && white_space('\t') && white_space('\n') && white_space('\r'),
        forall|c: char| '!' <= c && c <= '~' ==> !#[trigger] white_space(c),
{
    let s = before + core + after;
    let a = before.len() as int;
    let b = a + core.len();
    assert forall|i: int| 0 <= i < a || b <= i < s.len() implies white_space(#[trigger] s[i]) by {
        if i < a {
            assert(s[i] == before[i]);
        } else {
            assert(s[i] == after[i - b]);
        }
    }
    if core.len() > 0 {
        assert(s[a] == core[0]);
        assert(s[b - 1] == core.last());
    }
    assert(is_trimmed_range(s, a, b));
    trimmed_is(s, a, b);
    assert(s.subrange(a, b) =~= core);
}

}
