//! The order of a directory listing.
//!
//! Names are ordered by their bytes; entries of the same name keep the order in
//! which they were found.

use vstd::prelude::*;

use crate::messages::ListEntry;
use crate::text;

verus! {

/// Lexicographic order of byte sequences.
pub open spec fn bytes_lt(x: Seq<u8>, y: Seq<u8>) -> bool
    decreases x.len(),
{
    y.len() > 0 && (x.len() == 0 || x[0] < y[0] || (x[0] == y[0] && bytes_lt(
        x.drop_first(),
        y.drop_first(),
    )))
}

/// The order of names: that of their UTF-8 encodings.
pub open spec fn name_lt(a: Seq<char>, b: Seq<char>) -> bool {
    bytes_lt(vstd::utf8::encode_utf8(a), vstd::utf8::encode_utf8(b))
}

/// Whether names are in order, so that none occurs twice.
pub open spec fn names_in_order(names: Seq<Seq<char>>) -> bool {
    forall|i: int, j: int|
        0 <= i < j < names.len() ==> name_lt(#[trigger] names[i], #[trigger] names[j])
}

/// Whether the entry at position `p` is listed before the one at `q`.
pub open spec fn listed_before(entries: Seq<ListEntry>, p: int, q: int) -> bool {
    name_lt(entries[p].name@, entries[q].name@) || (entries[p].name@ == entries[q].name@ && p < q)
}

/// Whether a listing shows the entry. The server's own directory is not shown.
pub open spec fn visible(entry: ListEntry) -> bool {
    entry.name@ != ".agent-remote"@
}

/// Whether `order` lists positions one before the other.
pub open spec fn in_order(entries: Seq<ListEntry>, order: Seq<usize>) -> bool {
    forall|i: int, j: int|
        0 <= i < j < order.len() ==> listed_before(
            entries,
            #[trigger] order[i] as int,
            #[trigger] order[j] as int,
        )
}

/// Whether `order` lists the positions of the visible entries, all of them, in
/// order.
pub open spec fn is_listing(entries: Seq<ListEntry>, order: Seq<usize>) -> bool {
    &&& in_order(entries, order)
    &&& forall|p: usize| #[trigger]
        order.contains(p) <==> p < entries.len() && visible(entries[p as int])
}

/// The positions of the visible entries, in order.
pub open spec fn listing(entries: Seq<ListEntry>) -> Seq<usize> {
    choose|order: Seq<usize>| is_listing(entries, order)
}

proof fn bytes_lt_irreflexive(x: Seq<u8>)
    ensures
        !bytes_lt(x, x),
    decreases x.len(),
{
    if x.len() > 0 {
        bytes_lt_irreflexive(x.drop_first());
    }
}

proof fn bytes_lt_transitive(x: Seq<u8>, y: Seq<u8>, z: Seq<u8>)
    requires
        bytes_lt(x, y),
        bytes_lt(y, z),
    ensures
        bytes_lt(x, z),
    decreases x.len(),
{
    if x.len() > 0 && x[0] == y[0] && y[0] == z[0] {
        bytes_lt_transitive(x.drop_first(), y.drop_first(), z.drop_first());
    }
}

proof fn bytes_lt_total(x: Seq<u8>, y: Seq<u8>)
    ensures
        bytes_lt(x, y) || bytes_lt(y, x) || x == y,
    decreases x.len(),
{
    if x.len() > 0 && y.len() > 0 && x[0] == y[0] {
        bytes_lt_total(x.drop_first(), y.drop_first());
        if x.drop_first() == y.drop_first() {
            assert(x =~= seq![x[0]] + x.drop_first());
            assert(y =~= seq![y[0]] + y.drop_first());
        }
    } else if x.len() == 0 && y.len() == 0 {
        assert(x =~= y);
    }
}

proof fn encoding_is_injective(a: Seq<char>, b: Seq<char>)
    requires
        vstd::utf8::encode_utf8(a) == vstd::utf8::encode_utf8(b),
    ensures
        a == b,
{
    vstd::utf8::encode_utf8_decode_utf8(a);
    vstd::utf8::encode_utf8_decode_utf8(b);
}

proof fn listed_before_total(entries: Seq<ListEntry>, p: int, q: int)
    requires
        p != q,
    ensures
        listed_before(entries, p, q) || listed_before(entries, q, p),
{
    let a = entries[p].name@;
    let b = entries[q].name@;
    bytes_lt_total(vstd::utf8::encode_utf8(a), vstd::utf8::encode_utf8(b));
    if vstd::utf8::encode_utf8(a) == vstd::utf8::encode_utf8(b) {
        encoding_is_injective(a, b);
    }
}

proof fn listed_before_transitive(entries: Seq<ListEntry>, p: int, q: int, r: int)
    requires
        listed_before(entries, p, q),
        listed_before(entries, q, r),
    ensures
        listed_before(entries, p, r),
{
    let a = vstd::utf8::encode_utf8(entries[p].name@);
    let b = vstd::utf8::encode_utf8(entries[q].name@);
    let c = vstd::utf8::encode_utf8(entries[r].name@);
    if bytes_lt(a, b) && bytes_lt(b, c) {
        bytes_lt_transitive(a, b, c);
    }
}

proof fn listed_before_irreflexive(entries: Seq<ListEntry>, p: int)
    ensures
        !listed_before(entries, p, p),
{
    bytes_lt_irreflexive(vstd::utf8::encode_utf8(entries[p].name@));
}

proof fn listing_prefix_agrees(
    entries: Seq<ListEntry>,
    a: Seq<usize>,
    b: Seq<usize>,
    n: int,
)
    requires
        is_listing(entries, a),
        is_listing(entries, b),
        0 <= n <= a.len(),
    ensures
        n <= b.len(),
        a.take(n) == b.take(n),
    decreases n,
{
    if n == 0 {
        assert(a.take(0) =~= b.take(0));
    } else {
        listing_prefix_agrees(entries, a, b, n - 1);
        let p = a[n - 1];
        assert(a.contains(p));
        assert(b.contains(p));
        let j = choose|j: int| 0 <= j < b.len() && b[j] == p;
        if j < n - 1 {
            assert(b.take(n - 1)[j] == p);
            assert(a.take(n - 1)[j] == a[j]);
            assert(listed_before(entries, a[j] as int, a[n - 1] as int));
            listed_before_irreflexive(entries, p as int);
        }
        let q = b[n - 1];
        assert(b.contains(q));
        assert(a.contains(q));
        let i = choose|i: int| 0 <= i < a.len() && a[i] == q;
        if i < n - 1 {
            assert(a.take(n - 1)[i] == q);
            assert(b.take(n - 1)[i] == b[i]);
            assert(listed_before(entries, b[i] as int, b[n - 1] as int));
            listed_before_irreflexive(entries, q as int);
        }
        if p != q {
            assert(j > n - 1);
            assert(i > n - 1);
            assert(listed_before(entries, b[n - 1] as int, b[j] as int));
            assert(listed_before(entries, a[n - 1] as int, a[i] as int));
            listed_before_transitive(entries, p as int, q as int, p as int);
            listed_before_irreflexive(entries, p as int);
        }
        assert(a.take(n) =~= a.take(n - 1).push(p));
        assert(b.take(n) =~= b.take(n - 1).push(q));
    }
}

/// A directory has one listing.
pub proof fn listing_is_unique(entries: Seq<ListEntry>, order: Seq<usize>)
    requires
        is_listing(entries, order),
    ensures
        order == listing(entries),
{
    let other = listing(entries);
    assert(is_listing(entries, other));
    listing_prefix_agrees(entries, order, other, order.len() as int);
    listing_prefix_agrees(entries, other, order, other.len() as int);
    assert(order.take(order.len() as int) =~= order);
    assert(other.take(other.len() as int) =~= other);
}

fn slice_lt(x: &[u8], y: &[u8]) -> (lt: bool)
    ensures
        lt == bytes_lt(x@, y@),
{
    let n: usize = if x.len() < y.len() {
        x.len()
    } else {
        y.len()
    };
    let mut i: usize = 0;
    assert(x@.skip(0) =~= x@);
    assert(y@.skip(0) =~= y@);
    while i < n
        invariant
            i <= n,
            n <= x@.len(),
            n <= y@.len(),
            n == x@.len() || n == y@.len(),
            bytes_lt(x@, y@) == bytes_lt(x@.skip(i as int), y@.skip(i as int)),
        decreases n - i,
    {
        if x[i] < y[i] {
            return true;
        }
        if x[i] > y[i] {
            return false;
        }
        assert(x@.skip(i as int).drop_first() =~= x@.skip(i + 1));
        assert(y@.skip(i as int).drop_first() =~= y@.skip(i + 1));
        i += 1;
    }
    n < y.len()
}

/// Whether one name comes before another.
pub fn name_before(a: &str, b: &str) -> (yes: bool)
    ensures
        yes == name_lt(a@, b@),
{
    slice_lt(a.as_bytes(), b.as_bytes())
}

/// Each name comes before those behind the next one where it comes before the
/// next one.
pub proof fn name_lt_transitive(a: Seq<char>, b: Seq<char>, c: Seq<char>)
    requires
        name_lt(a, b),
        name_lt(b, c),
    ensures
        name_lt(a, c),
{
    bytes_lt_transitive(
        vstd::utf8::encode_utf8(a),
        vstd::utf8::encode_utf8(b),
        vstd::utf8::encode_utf8(c),
    );
}

/// Names in order are distinct.
pub proof fn ordered_names_are_distinct(names: Seq<Seq<char>>, i: int, j: int)
    requires
        names_in_order(names),
        0 <= i < names.len(),
        0 <= j < names.len(),
        i != j,
    ensures
        names[i] != names[j],
{
    bytes_lt_irreflexive(vstd::utf8::encode_utf8(names[i]));
    if i < j {
        assert(name_lt(names[i], names[j]));
    } else {
        assert(name_lt(names[j], names[i]));
    }
}

fn comes_before(entries: &Vec<ListEntry>, p: usize, q: usize) -> (yes: bool)
    requires
        p < entries@.len(),
        q < entries@.len(),
    ensures
        yes == listed_before(entries@, p as int, q as int),
{
    let a = entries[p].name.as_str().as_bytes();
    let b = entries[q].name.as_str().as_bytes();
    if slice_lt(a, b) {
        return true;
    }
    p < q && text::str_eq(entries[p].name.as_str(), entries[q].name.as_str())
}

/// Whether all positions are those of entries, and none occurs twice.
spec fn distinct_positions(entries: Seq<ListEntry>, ps: Seq<usize>) -> bool {
    &&& forall|i: int| 0 <= i < ps.len() ==> #[trigger] ps[i] < entries.len()
    &&& forall|i: int, j: int| 0 <= i < j < ps.len() ==> #[trigger] ps[i] != #[trigger] ps[j]
}

fn merge(entries: &Vec<ListEntry>, a: &Vec<usize>, b: &Vec<usize>) -> (out: Vec<usize>)
    requires
        in_order(entries@, a@),
        in_order(entries@, b@),
        forall|i: int| 0 <= i < a@.len() ==> #[trigger] a@[i] < entries@.len(),
        forall|i: int| 0 <= i < b@.len() ==> #[trigger] b@[i] < entries@.len(),
        forall|i: int, j: int|
            0 <= i < a@.len() && 0 <= j < b@.len() ==> #[trigger] a@[i] != #[trigger] b@[j],
    ensures
        in_order(entries@, out@),
        forall|p: usize| #[trigger] out@.contains(p) <==> a@.contains(p) || b@.contains(p),
{
    let mut out: Vec<usize> = Vec::new();
    let n: usize = a.len();
    let m: usize = b.len();
    let mut i: usize = 0;
    let mut j: usize = 0;
    while i < n || j < m
        invariant
            i <= n,
            j <= m,
            n == a@.len(),
            m == b@.len(),
            in_order(entries@, a@),
            in_order(entries@, b@),
            forall|k: int| 0 <= k < a@.len() ==> #[trigger] a@[k] < entries@.len(),
            forall|k: int| 0 <= k < b@.len() ==> #[trigger] b@[k] < entries@.len(),
            forall|k: int, l: int|
                0 <= k < a@.len() && 0 <= l < b@.len() ==> #[trigger] a@[k] != #[trigger] b@[l],
            in_order(entries@, out@),
            forall|k: int| 0 <= k < i ==> out@.contains(#[trigger] a@[k]),
            forall|k: int| 0 <= k < j ==> out@.contains(#[trigger] b@[k]),
            forall|k: int|
                0 <= k < out@.len() ==> a@.contains(#[trigger] out@[k]) || b@.contains(out@[k]),
            forall|k: int, l: int|
                0 <= k < out@.len() && i <= l < n ==> listed_before(
                    entries@,
                    #[trigger] out@[k] as int,
                    #[trigger] a@[l] as int,
                ),
            forall|k: int, l: int|
                0 <= k < out@.len() && j <= l < m ==> listed_before(
                    entries@,
                    #[trigger] out@[k] as int,
                    #[trigger] b@[l] as int,
                ),
        decreases n - i + m - j,
    {
        let ghost before = out@;
        let from_a = if i == n {
            false
        } else if j == m {
            true
        } else {
            comes_before(entries, a[i], b[j])
        };
        if from_a {
            let p: usize = a[i];
            proof {
                assert forall|l: int| j <= l < m implies listed_before(
                    entries@,
                    p as int,
                    #[trigger] b@[l] as int,
                ) by {
                    if l > j {
                        assert(listed_before(entries@, b@[j as int] as int, b@[l] as int));
                        listed_before_transitive(
                            entries@,
                            p as int,
                            b@[j as int] as int,
                            b@[l] as int,
                        );
                    }
                }
                assert(a@.contains(p));
            }
            out.push(p);
            assert(out@[before.len() as int] == p);
            assert forall|k: int| 0 <= k < i + 1 implies out@.contains(#[trigger] a@[k]) by {
                if k < i {
                    let w = choose|w: int| 0 <= w < before.len() && before[w] == a@[k];
                    assert(out@[w] == a@[k]);
                }
            }
            assert forall|k: int| 0 <= k < j implies out@.contains(#[trigger] b@[k]) by {
                let w = choose|w: int| 0 <= w < before.len() && before[w] == b@[k];
                assert(out@[w] == b@[k]);
            }
            i += 1;
        } else {
            let p: usize = b[j];
            proof {
                if i < n {
                    listed_before_total(entries@, a@[i as int] as int, p as int);
                }
                assert forall|l: int| i <= l < n implies listed_before(
                    entries@,
                    p as int,
                    #[trigger] a@[l] as int,
                ) by {
                    if l > i {
                        assert(listed_before(entries@, a@[i as int] as int, a@[l] as int));
                        listed_before_transitive(
                            entries@,
                            p as int,
                            a@[i as int] as int,
                            a@[l] as int,
                        );
                    }
                }
                assert(b@.contains(p));
            }
            out.push(p);
            assert(out@[before.len() as int] == p);
            assert forall|k: int| 0 <= k < i implies out@.contains(#[trigger] a@[k]) by {
                let w = choose|w: int| 0 <= w < before.len() && before[w] == a@[k];
                assert(out@[w] == a@[k]);
            }
            assert forall|k: int| 0 <= k < j + 1 implies out@.contains(#[trigger] b@[k]) by {
                if k < j {
                    let w = choose|w: int| 0 <= w < before.len() && before[w] == b@[k];
                    assert(out@[w] == b@[k]);
                }
            }
            j += 1;
        }
    }
    out
}

fn sort_positions(entries: &Vec<ListEntry>, ps: Vec<usize>) -> (out: Vec<usize>)
    requires
        distinct_positions(entries@, ps@),
    ensures
        in_order(entries@, out@),
        forall|p: usize| #[trigger] out@.contains(p) <==> ps@.contains(p),
    decreases ps@.len(),
{
    let n: usize = ps.len();
    if n <= 1 {
        return ps;
    }
    let ghost all = ps@;
    let mut front = ps;
    let back = front.split_off(n / 2);
    let ghost half = (n / 2) as int;
    let ghost x = front@;
    let ghost y = back@;
    proof {
        assert(x =~= all.take(half));
        assert(y =~= all.skip(half));
        assert forall|i: int, j: int| 0 <= i < x.len() && 0 <= j < y.len() implies #[trigger] x[i]
            != #[trigger] y[j] by {
            assert(all[i] != all[half + j]);
        }
        assert forall|p: usize| #[trigger] all.contains(p) <==> x.contains(p) || y.contains(p) by {
            if all.contains(p) {
                let k = choose|k: int| 0 <= k < all.len() && all[k] == p;
                if k < half {
                    assert(x[k] == p);
                } else {
                    assert(y[k - half] == p);
                }
            }
            if x.contains(p) {
                let k = choose|k: int| 0 <= k < x.len() && x[k] == p;
                assert(all[k] == p);
            }
            if y.contains(p) {
                let k = choose|k: int| 0 <= k < y.len() && y[k] == p;
                assert(all[half + k] == p);
            }
        }
    }
    let a = sort_positions(entries, front);
    let b = sort_positions(entries, back);
    proof {
        assert forall|i: int| 0 <= i < a@.len() implies #[trigger] a@[i] < entries@.len() by {
            assert(a@.contains(a@[i]));
            assert(x.contains(a@[i]));
        }
        assert forall|i: int| 0 <= i < b@.len() implies #[trigger] b@[i] < entries@.len() by {
            assert(b@.contains(b@[i]));
            assert(y.contains(b@[i]));
        }
        assert forall|i: int, j: int| 0 <= i < a@.len() && 0 <= j < b@.len() implies #[trigger] a@[i]
            != #[trigger] b@[j] by {
            assert(a@.contains(a@[i]));
            assert(x.contains(a@[i]));
            assert(b@.contains(b@[j]));
            assert(y.contains(b@[j]));
        }
    }
    let out = merge(entries, &a, &b);
    assert forall|p: usize| #[trigger] out@.contains(p) <==> all.contains(p) by {
        assert(a@.contains(p) <==> x.contains(p));
        assert(b@.contains(p) <==> y.contains(p));
    }
    out
}

/// The positions of the visible entries, in order.
pub fn listing_order(entries: &Vec<ListEntry>) -> (order: Vec<usize>)
    ensures
        order@ == listing(entries@),
        is_listing(entries@, order@),
{
    let mut ps: Vec<usize> = Vec::new();
    let n: usize = entries.len();
    let mut i: usize = 0;
    while i < n
        invariant
            i <= n,
            n == entries@.len(),
            forall|k: int| 0 <= k < ps@.len() ==> #[trigger] ps@[k] < i && visible(entries@[ps@[k] as int]),
            forall|k: int, l: int| 0 <= k < l < ps@.len() ==> #[trigger] ps@[k] < #[trigger] ps@[l],
            forall|p: usize| p < i && visible(entries@[p as int]) ==> #[trigger] ps@.contains(p),
        decreases n - i,
    {
        let ghost before = ps@;
        if !text::str_eq(entries[i].name.as_str(), ".agent-remote") {
            ps.push(i);
            assert(ps@[before.len() as int] == i);
            assert forall|p: usize| p < i + 1 && visible(
                entries@[p as int],
            ) implies #[trigger] ps@.contains(p) by {
                if p < i {
                    assert(before.contains(p));
                    let w = choose|w: int| 0 <= w < before.len() && before[w] == p;
                    assert(ps@[w] == p);
                }
            }
        }
        i += 1;
    }
    let ghost positions = ps@;
    let order = sort_positions(entries, ps);
    proof {
        assert forall|p: usize| #[trigger] order@.contains(p) <==> p < entries@.len() && visible(
            entries@[p as int],
        ) by {
            assert(order@.contains(p) <==> positions.contains(p));
        }
        assert(is_listing(entries@, order@));
        listing_is_unique(entries@, order@);
    }
    order
}

/// Of two sequences in lexicographic order, the first one ends or has the smaller
/// byte where they first differ.
pub proof fn first_difference(x: Seq<u8>, y: Seq<u8>) -> (k: int)
    requires
        bytes_lt(x, y),
    ensures
        0 <= k <= x.len(),
        k < y.len(),
        x.take(k) == y.take(k),
        k < x.len() ==> x[k] < y[k],
    decreases x.len(),
{
    if x.len() == 0 || x[0] < y[0] {
        assert(x.take(0) =~= y.take(0));
        0
    } else {
        let k = first_difference(x.drop_first(), y.drop_first());
        assert(x.take(k + 1) =~= seq![x[0]] + x.drop_first().take(k));
        assert(y.take(k + 1) =~= seq![y[0]] + y.drop_first().take(k));
        k + 1
    }
}

/// A listing shows each entry of a directory once, but for the one with the name
/// of the server's own directory, in the order of the bytes of the names.
pub proof fn listings_show_every_entry(entries: Seq<ListEntry>, order: Seq<usize>)
    requires
        is_listing(entries, order),
    ensures
        forall|p: usize| #[trigger]
            order.contains(p) <==> p < entries.len() && entries[p as int].name@
                != ".agent-remote"@,
        forall|i: int, j: int|
            0 <= i < j < order.len() ==> #[trigger] order[i] != #[trigger] order[j],
        forall|i: int| 0 <= i < order.len() ==> #[trigger] order[i] < entries.len(),
        forall|i: int, j: int|
            #![trigger order[i], order[j]]
            0 <= i < j < order.len() ==> ({
                let x = vstd::utf8::encode_utf8(entries[order[i] as int].name@);
                let y = vstd::utf8::encode_utf8(entries[order[j] as int].name@);
                x == y || exists|k: int|
                    #![trigger x.take(k)]
                    0 <= k <= x.len() && k < y.len() && x.take(k) == y.take(k) && (k < x.len()
                        ==> x[k] < y[k])
            }),
{
    assert forall|i: int| 0 <= i < order.len() implies #[trigger] order[i] < entries.len() by {
        assert(order.contains(order[i]));
    }
    assert forall|i: int, j: int| 0 <= i < j < order.len() implies #[trigger] order[i]
        != #[trigger] order[j] by {
        assert(listed_before(entries, order[i] as int, order[j] as int));
        listed_before_irreflexive(entries, order[i] as int);
    }
    assert forall|i: int, j: int|
        #![trigger order[i], order[j]]
        0 <= i < j < order.len() implies ({
            let x = vstd::utf8::encode_utf8(entries[order[i] as int].name@);
            let y = vstd::utf8::encode_utf8(entries[order[j] as int].name@);
            x == y || exists|k: int|
                #![trigger x.take(k)]
                0 <= k <= x.len() && k < y.len() && x.take(k) == y.take(k) && (k < x.len() ==> x[k]
                    < y[k])
        }) by {
        let x = vstd::utf8::encode_utf8(entries[order[i] as int].name@);
        let y = vstd::utf8::encode_utf8(entries[order[j] as int].name@);
        assert(listed_before(entries, order[i] as int, order[j] as int));
        if bytes_lt(x, y) {
            let k = first_difference(x, y);
            assert(x.take(k) == y.take(k));
        }
    }
}

}
