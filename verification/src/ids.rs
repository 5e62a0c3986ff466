//! Ids of requests and transfers, made of numbers in hexadecimal.

use vstd::prelude::*;

use crate::hash;
use crate::text;

verus! {

/// The hexadecimal representation of `n`, without leading zeros.
pub open spec fn hex_number(n: nat) -> Seq<char>
    decreases n,
{
    if n < 16 {
        seq![hash::hex_digit(n)]
    } else {
        hex_number(n / 16).push(hash::hex_digit(n % 16))
    }
}

/// `count` zeros.
pub open spec fn zeros(count: nat) -> Seq<char> {
    Seq::new(count, |i: int| '0')
}

/// The hexadecimal representation of `n`, filled up with zeros to `width`
/// digits.
pub open spec fn padded_hex(n: nat, width: nat) -> Seq<char> {
    let digits = hex_number(n);
    if digits.len() >= width {
        digits
    } else {
        zeros((width - digits.len()) as nat) + digits
    }
}

/// The value of a hexadecimal digit.
pub open spec fn hex_digit_value(c: char) -> nat {
    if '0' <= c && c <= '9' {
        (c as nat - '0' as nat) as nat
    } else {
        (c as nat - 'a' as nat + 10) as nat
    }
}

/// The number that a run of hexadecimal digits denotes.
pub open spec fn hex_value(digits: Seq<char>) -> nat
    decreases digits.len(),
{
    if digits.len() == 0 {
        0
    } else {
        hex_value(digits.drop_last()) * 16 + hex_digit_value(digits.last())
    }
}

proof fn zeros_denote_nothing(count: nat)
    ensures
        hex_value(zeros(count)) == 0,
    decreases count,
{
    if count > 0 {
        assert(zeros(count).drop_last() =~= zeros((count - 1) as nat));
        zeros_denote_nothing((count - 1) as nat);
    }
}

proof fn hex_number_denotes(n: nat, count: nat)
    ensures
        hex_value(zeros(count) + hex_number(n)) == n,
        hex_number(n).len() > 0,
        !hex_number(n).contains('-'),
    decreases n,
{
    let all = zeros(count) + hex_number(n);
    if n < 16 {
        assert(all.drop_last() =~= zeros(count));
        zeros_denote_nothing(count);
        assert(all.last() == hash::hex_digit(n));
    } else {
        hex_number_denotes(n / 16, count);
        assert(all.drop_last() =~= zeros(count) + hex_number(n / 16));
        assert(all.last() == hash::hex_digit(n % 16));
        let front = hex_number(n / 16);
        assert forall|i: int| 0 <= i < hex_number(n).len() implies hex_number(n)[i] != '-' by {
            if i < front.len() {
                assert(front.contains(front[i]));
            }
        }
    }
}

/// The representation denotes the number it was made from, and holds no hyphen.
pub proof fn padded_hex_denotes(n: nat, width: nat)
    ensures
        hex_value(padded_hex(n, width)) == n,
        !padded_hex(n, width).contains('-'),
{
    let digits = hex_number(n);
    if digits.len() >= width {
        hex_number_denotes(n, 0);
        assert(zeros(0) + digits =~= digits);
    } else {
        let count = (width - digits.len()) as nat;
        hex_number_denotes(n, count);
        assert forall|i: int| 0 <= i < padded_hex(n, width).len() implies padded_hex(n, width)[i]
            != '-' by {
            if i >= count {
                assert(digits.contains(digits[i - count]));
            }
        }
    }
}

fn hex_char(d: u64) -> (c: char)
    requires
        d < 16,
    ensures
        c == hash::hex_digit(d as nat),
{
    if d < 10 {
        ((48 + d) as u8) as char
    } else {
        ((87 + d) as u8) as char
    }
}

fn hex_of(n: u64) -> (out: Vec<char>)
    ensures
        out@ == hex_number(n as nat),
    decreases n,
{
    if n < 16 {
        let mut out: Vec<char> = Vec::new();
        out.push(hex_char(n));
        assert(out@ =~= hex_number(n as nat));
        out
    } else {
        let mut out = hex_of(n / 16);
        out.push(hex_char(n % 16));
        out
    }
}

/// The hexadecimal representation of `n`, filled up with zeros to `width`
/// digits.
pub fn hex_u64(n: u64, width: usize) -> (out: String)
    ensures
        out@ == padded_hex(n as nat, width as nat),
{
    let digits = hex_of(n);
    let mut chars: Vec<char> = Vec::new();
    let len: usize = digits.len();
    if len < width {
        let count: usize = width - len;
        let mut i: usize = 0;
        while i < count
            invariant
                i <= count,
                chars@ =~= zeros(i as nat),
            decreases count - i,
        {
            chars.push('0');
            i += 1;
        }
    }
    chars.extend_from_slice(digits.as_slice());
    assert(chars@ =~= padded_hex(n as nat, width as nat));
    text::string_of(chars.as_slice())
}

/// The id of the `n`th transfer of a process, at a time in nanoseconds.
pub open spec fn transfer_id_view(nanos: u64, n: u64) -> Seq<char> {
    "xfer-"@ + padded_hex(nanos as nat, 16) + "-"@ + padded_hex(n as nat, 4)
}

/// The id of the `n`th transfer of a process, at a time in nanoseconds.
pub fn transfer_id(nanos: u64, n: u64) -> (id: String)
    ensures
        id@ == transfer_id_view(nanos, n),
{
    let mut id = text::concat3("xfer-", hex_u64(nanos, 16).as_str(), "-");
    id.append(hex_u64(n, 4).as_str());
    id
}

/// The id of the `n`th request of a process, at a time in nanoseconds.
pub open spec fn request_id_view(nanos: u64, pid: u32, n: u64) -> Seq<char> {
    "req-"@ + padded_hex(nanos as nat, 16) + "-"@ + padded_hex(pid as nat, 8) + "-"@ + padded_hex(
        n as nat,
        8,
    )
}

/// The id of the `n`th request of a process, at a time in nanoseconds. The time
/// tells processes apart that run one after the other, the process id those that
/// run at once, and the count the requests of one process.
pub fn request_id(nanos: u64, pid: u32, n: u64) -> (id: String)
    ensures
        id@ == request_id_view(nanos, pid, n),
{
    let mut id = text::concat3("req-", hex_u64(nanos, 16).as_str(), "-");
    id.append(hex_u64(pid as u64, 8).as_str());
    id.append("-");
    id.append(hex_u64(n, 8).as_str());
    id
}

proof fn four_joined(a: Seq<char>, b: Seq<char>, c: Seq<char>, d: Seq<char>)
    ensures
        text::join(seq![a, b, c, d], seq!['-']) == a + seq!['-'] + b + seq!['-'] + c + seq!['-']
            + d,
        text::join(seq![a, b, c], seq!['-']) == a + seq!['-'] + b + seq!['-'] + c,
{
    assert(seq![a, b, c, d].drop_last() =~= seq![a, b, c]);
    assert(seq![a, b, c].drop_last() =~= seq![a, b]);
    assert(seq![a, b].drop_last() =~= seq![a]);
    assert(text::join(seq![a], seq!['-']) == a);
    assert(text::join(seq![a, b], seq!['-']) == a + seq!['-'] + b);
    assert(text::join(seq![a, b, c], seq!['-']) == a + seq!['-'] + b + seq!['-'] + c);
}

proof fn request_id_is_joined(nanos: u64, pid: u32, n: u64)
    ensures
        text::split(request_id_view(nanos, pid, n), '-') == seq![
            "req"@,
            padded_hex(nanos as nat, 16),
            padded_hex(pid as nat, 8),
            padded_hex(n as nat, 8),
        ],
{
    reveal_strlit("req-");
    reveal_strlit("req");
    reveal_strlit("-");
    let a = padded_hex(nanos as nat, 16);
    let b = padded_hex(pid as nat, 8);
    let c = padded_hex(n as nat, 8);
    let pieces = seq!["req"@, a, b, c];
    padded_hex_denotes(nanos as nat, 16);
    padded_hex_denotes(pid as nat, 8);
    padded_hex_denotes(n as nat, 8);
    assert(!"req"@.contains('-')) by {
        assert forall|i: int| 0 <= i < "req"@.len() implies "req"@[i] != '-' by {}
    }
    assert forall|i: int| 0 <= i < pieces.len() implies !(#[trigger] pieces[i]).contains('-') by {
        assert(i == 0 || i == 1 || i == 2 || i == 3);
    }
    four_joined("req"@, a, b, c);
    assert("req-"@ =~= "req"@ + seq!['-']);
    assert("-"@ =~= seq!['-']);
    text::join_split(pieces, '-');
}

proof fn transfer_id_is_joined(nanos: u64, n: u64)
    ensures
        text::split(transfer_id_view(nanos, n), '-') == seq![
            "xfer"@,
            padded_hex(nanos as nat, 16),
            padded_hex(n as nat, 4),
        ],
{
    reveal_strlit("xfer-");
    reveal_strlit("xfer");
    reveal_strlit("-");
    let a = padded_hex(nanos as nat, 16);
    let b = padded_hex(n as nat, 4);
    let pieces = seq!["xfer"@, a, b];
    padded_hex_denotes(nanos as nat, 16);
    padded_hex_denotes(n as nat, 4);
    assert(!"xfer"@.contains('-')) by {
        assert forall|i: int| 0 <= i < "xfer"@.len() implies "xfer"@[i] != '-' by {}
    }
    assert forall|i: int| 0 <= i < pieces.len() implies !(#[trigger] pieces[i]).contains('-') by {
        assert(i == 0 || i == 1 || i == 2);
    }
    four_joined("xfer"@, a, b, b);
    assert("xfer-"@ =~= "xfer"@ + seq!['-']);
    assert("-"@ =~= seq!['-']);
    text::join_split(pieces, '-');
}

/// Request ids are unique: two ids are the same only where time, process and
/// count are the same.
pub proof fn request_ids_are_unique(
    nanos: u64,
    pid: u32,
    n: u64,
    other_nanos: u64,
    other_pid: u32,
    other_n: u64,
)
    requires
        request_id_view(nanos, pid, n) == request_id_view(other_nanos, other_pid, other_n),
    ensures
        nanos == other_nanos,
        pid == other_pid,
        n == other_n,
{
    request_id_is_joined(nanos, pid, n);
    request_id_is_joined(other_nanos, other_pid, other_n);
    let x = text::split(request_id_view(nanos, pid, n), '-');
    let y = text::split(request_id_view(other_nanos, other_pid, other_n), '-');
    assert(x[1] == y[1] && x[2] == y[2] && x[3] == y[3]);
    padded_hex_denotes(nanos as nat, 16);
    padded_hex_denotes(other_nanos as nat, 16);
    padded_hex_denotes(pid as nat, 8);
    padded_hex_denotes(other_pid as nat, 8);
    padded_hex_denotes(n as nat, 8);
    padded_hex_denotes(other_n as nat, 8);
}

/// Transfer ids are unique: two ids are the same only where time and count are
/// the same.
pub proof fn transfer_ids_are_unique(nanos: u64, n: u64, other_nanos: u64, other_n: u64)
    requires
        transfer_id_view(nanos, n) == transfer_id_view(other_nanos, other_n),
    ensures
        nanos == other_nanos,
        n == other_n,
{
    transfer_id_is_joined(nanos, n);
    transfer_id_is_joined(other_nanos, other_n);
    let x = text::split(transfer_id_view(nanos, n), '-');
    let y = text::split(transfer_id_view(other_nanos, other_n), '-');
    assert(x[1] == y[1] && x[2] == y[2]);
    padded_hex_denotes(nanos as nat, 16);
    padded_hex_denotes(other_nanos as nat, 16);
    padded_hex_denotes(n as nat, 4);
    padded_hex_denotes(other_n as nat, 4);
}

}
