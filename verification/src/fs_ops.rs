//! File operations: what is answered for what the file system shows, and what a
//! mutation puts in place of a file.

use vstd::prelude::*;

use crate::error::{ErrorCode, ProtocolError};
use crate::hash;
use crate::listing;
use crate::messages::{
    FileEntry, FileMode, ListEntry, ListKind, ListResult, ReadResult, ResultBody,
};
use crate::patch::apply_patch;
use crate::record::OperationKind;
use crate::text;
use crate::utf8;

verus! {

pub const LIST_DEFAULT_LIMIT: usize = 1000;

pub const LIST_MAX_LIMIT: usize = 1000;

pub const READ_DEFAULT_LIMIT: u64 = 65536;

pub const READ_MAX_LIMIT: u64 = 64 * 1024;

/// What the file system shows at a path: nothing, an error with its message, or
/// something.
pub enum Lookup<T> {
    Missing,
    Failed(String),
    Found(T),
}

/// What is found where a directory is to be listed.
pub enum Directory {
    NotADirectory,
    Unreadable(String),
    Entries(Vec<ListEntry>),
}

/// What is found where a file is to be read.
pub enum Content {
    Directory,
    Unreadable(String),
    Bytes(Vec<u8>),
}

/// What is found where something is to be described.
pub struct NodeMeta {
    pub is_symlink: bool,
    pub is_dir: bool,
    pub is_file: bool,
    pub size: u64,
    /// The permission bits.
    pub mode: u32,
    /// The hash of the content, where it could be read.
    pub hash: Option<String>,
}

/// Whether `e` is the error for a path at which nothing is shown.
pub open spec fn lookup_refusal<T>(
    found: Lookup<T>,
    op: Seq<char>,
    path: Seq<char>,
    e: ProtocolError,
) -> bool {
    match found {
        Lookup::Missing => e.says(ErrorCode::NotFound, "not found: "@ + path),
        Lookup::Failed(m) => e.says(ErrorCode::IoError, op + " failed: "@ + m@),
        Lookup::Found(_) => false,
    }
}

fn not_found(path: &str) -> (e: ProtocolError)
    ensures
        e.says(ErrorCode::NotFound, "not found: "@ + path@),
{
    let m = text::concat("not found: ", path);
    ProtocolError::new(ErrorCode::NotFound, m.as_str())
}

fn lookup_failed(op: &str, cause: &str) -> (e: ProtocolError)
    ensures
        e.says(ErrorCode::IoError, op@ + " failed: "@ + cause@),
{
    let m = text::concat3(op, " failed: ", cause);
    ProtocolError::new(ErrorCode::IoError, m.as_str())
}

/// The number asked for, or the default.
pub open spec fn or_default(asked: Option<usize>, default: usize) -> usize {
    match asked {
        Some(n) => n,
        None => default,
    }
}

/// Where a page ends that starts at `offset`.
pub open spec fn page_end(len: nat, offset: nat, limit: nat) -> nat {
    if offset + limit <= len {
        offset + limit
    } else {
        len
    }
}

/// Whether `page` is the page of the directory that starts at `offset`.
pub open spec fn is_list_page(
    page: ListResult,
    entries: Seq<ListEntry>,
    offset: nat,
    limit: nat,
) -> bool {
    let order = listing::listing(entries);
    let end = page_end(order.len(), offset, limit);
    &&& listing::is_listing(entries, order)
    &&& page.entries@ == (if offset >= order.len() {
        Seq::<ListEntry>::empty()
    } else {
        order.subrange(offset as int, end as int).map_values(|p: usize| entries[p as int])
    })
    &&& page.next_offset == (if end < order.len() {
        Some(end as usize)
    } else {
        None
    })
}

/// Whether a listing is granted, and with what answer.
pub open spec fn listed(
    out: Result<ResultBody, ProtocolError>,
    path: Seq<char>,
    dir: Result<Lookup<Directory>, ProtocolError>,
    offset: Option<usize>,
    limit: Option<usize>,
) -> bool {
    let n = or_default(limit, LIST_DEFAULT_LIMIT);
    if n == 0 || n > LIST_MAX_LIMIT {
        out matches Err(e) && e.says(
            ErrorCode::InvalidRequest,
            "list limit must be between 1 and 1000 entries"@,
        )
    } else {
        match dir {
            Err(cause) => out == Err::<ResultBody, ProtocolError>(cause),
            Ok(Lookup::Found(Directory::NotADirectory)) => out matches Err(e) && e.says(
                ErrorCode::NotADirectory,
                "not a directory: "@ + path,
            ),
            Ok(Lookup::Found(Directory::Unreadable(m))) => out matches Err(e) && e.says(
                ErrorCode::IoError,
                "read_dir failed: "@ + m@,
            ),
            Ok(Lookup::Found(Directory::Entries(entries))) => out matches Ok(ResultBody::List(page))
                && is_list_page(page, entries@, or_default(offset, 0) as nat, n as nat),
            Ok(found) => out matches Err(e) && lookup_refusal(found, "list"@, path, e),
        }
    }
}

/// Lists a directory, a page at a time. `dir` is what the path leads to, or the
/// error that refuses the path.
pub fn list(
    path: &str,
    dir: Result<Lookup<Directory>, ProtocolError>,
    offset: Option<usize>,
    limit: Option<usize>,
) -> (out: Result<ResultBody, ProtocolError>)
    ensures
        listed(out, path@, dir, offset, limit),
{
    let offset: usize = match offset {
        Some(n) => n,
        None => 0,
    };
    let limit: usize = match limit {
        Some(n) => n,
        None => LIST_DEFAULT_LIMIT,
    };
    if limit == 0 || limit > LIST_MAX_LIMIT {
        return Err(
            ProtocolError::new(
                ErrorCode::InvalidRequest,
                "list limit must be between 1 and 1000 entries",
            ),
        );
    }
    match dir {
        Err(e) => Err(e),
        Ok(Lookup::Missing) => Err(not_found(path)),
        Ok(Lookup::Failed(m)) => Err(lookup_failed("list", m.as_str())),
        Ok(Lookup::Found(Directory::NotADirectory)) => {
            let m = text::concat("not a directory: ", path);
            Err(ProtocolError::new(ErrorCode::NotADirectory, m.as_str()))
        },
        Ok(Lookup::Found(Directory::Unreadable(cause))) => {
            let m = text::concat("read_dir failed: ", cause.as_str());
            Err(ProtocolError::new(ErrorCode::IoError, m.as_str()))
        },
        Ok(Lookup::Found(Directory::Entries(entries))) => Ok(
            ResultBody::List(list_page(&entries, offset, limit)),
        ),
    }
}

fn list_page(entries: &Vec<ListEntry>, offset: usize, limit: usize) -> (page: ListResult)
    ensures
        is_list_page(page, entries@, offset as nat, limit as nat),
{
    let order = listing::listing_order(entries);
    let len: usize = order.len();
    let mut page: Vec<ListEntry> = Vec::new();
    if offset >= len {
        return ListResult { entries: page, next_offset: None };
    }
    let end: usize = if limit <= len - offset {
        offset + limit
    } else {
        len
    };
    let ghost shown = order@.subrange(offset as int, end as int).map_values(
        |p: usize| entries@[p as int],
    );
    let mut i: usize = offset;
    while i < end
        invariant
            offset <= i <= end <= len,
            len == order@.len(),
            listing::is_listing(entries@, order@),
            shown == order@.subrange(offset as int, end as int).map_values(
                |p: usize| entries@[p as int],
            ),
            page@ =~= shown.take(i - offset),
        decreases end - i,
    {
        let p: usize = order[i];
        assert(order@.contains(p));
        page.push(entries[p].clone());
        i += 1;
    }
    assert(shown.take(end - offset) =~= shown);
    ListResult {
        entries: page,
        next_offset: if end < len {
            Some(end)
        } else {
            None
        },
    }
}

/// Pages follow each other without a gap: where a page tells that more entries
/// follow, it is not empty, and the page at its next offset goes on behind it.
pub proof fn list_pages_follow(
    page: ListResult,
    next: ListResult,
    entries: Seq<ListEntry>,
    offset: nat,
    limit: nat,
)
    requires
        is_list_page(page, entries, offset, limit),
        limit > 0,
        page.next_offset is Some,
        listing::listing(entries).len() <= usize::MAX,
        is_list_page(next, entries, page.next_offset->0 as nat, limit),
    ensures
        page.entries@.len() > 0,
        page.next_offset->0 == offset + page.entries@.len(),
        page.entries@ + next.entries@ == listing::listing(entries).subrange(
            offset as int,
            page_end(
                listing::listing(entries).len(),
                page.next_offset->0 as nat,
                limit,
            ) as int,
        ).map_values(|p: usize| entries[p as int]),
{
    let order = listing::listing(entries);
    let mid = page.next_offset->0 as nat;
    let end = page_end(order.len(), mid, limit);
    assert(page.entries@ + next.entries@ =~= order.subrange(offset as int, end as int).map_values(
        |p: usize| entries[p as int],
    ));
}

/// A page of a directory shows the entries of its range in the order of their
/// names, as many as were asked for or all that are left, and tells where the next
/// page starts. Every entry is in that order, but for the one with the name of the
/// server's own directory.
pub proof fn list_pages_show_the_directory(
    out: Result<ResultBody, ProtocolError>,
    path: Seq<char>,
    entries: Vec<ListEntry>,
    offset: Option<usize>,
    limit: Option<usize>,
) -> (order: Seq<usize>)
    requires
        listed(out, path, Ok(Lookup::Found(Directory::Entries(entries))), offset, limit),
    ensures
        ({
            let from = match offset {
                Some(n) => n as int,
                None => 0,
            };
            let most = match limit {
                Some(n) => n as int,
                None => 1000,
            };
            &&& out is Ok <==> 1 <= most <= 1000
            &&& out is Ok ==> {
                &&& out->Ok_0 matches ResultBody::List(page)
                &&& page.entries@.len() == (if from >= order.len() {
                    0
                } else {
                    vstd::math::min(most, order.len() - from)
                })
                &&& forall|i: int|
                    0 <= i < page.entries@.len() ==> #[trigger] page.entries@[i]
                        == entries@[order[from + i] as int]
                &&& page.next_offset == (if from + most < order.len() {
                    Some((from + most) as usize)
                } else {
                    None
                })
                &&& forall|p: usize| #[trigger]
                    order.contains(p) <==> p < entries@.len() && entries@[p as int].name@
                        != ".agent-remote"@
                &&& forall|i: int, j: int|
                    0 <= i < j < order.len() ==> #[trigger] order[i] != #[trigger] order[j]
                &&& forall|i: int, j: int|
                    #![trigger order[i], order[j]]
                    0 <= i < j < order.len() ==> ({
                        let x = vstd::utf8::encode_utf8(entries@[order[i] as int].name@);
                        let y = vstd::utf8::encode_utf8(entries@[order[j] as int].name@);
                        x == y || exists|k: int|
                            #![trigger x.take(k)]
                            0 <= k <= x.len() && k < y.len() && x.take(k) == y.take(k) && (k
                                < x.len() ==> x[k] < y[k])
                    })
            }
        }),
{
    let order = listing::listing(entries@);
    if out is Ok {
        listing::listings_show_every_entry(entries@, order);
    }
    order
}

/// Whether `pages` are listed one after the other: the first one at `offset`,
/// each further one at the offset that the one before it gives, and the last one
/// gives none.
pub open spec fn lists_through(
    pages: Seq<ListResult>,
    entries: Seq<ListEntry>,
    offset: nat,
    limit: nat,
) -> bool
    decreases pages.len(),
{
    &&& pages.len() > 0
    &&& is_list_page(pages[0], entries, offset, limit)
    &&& match pages[0].next_offset {
        Some(next) => lists_through(pages.skip(1), entries, next as nat, limit),
        None => pages.len() == 1,
    }
}

/// The entries of pages, one after the other.
pub open spec fn entries_of(pages: Seq<ListResult>) -> Seq<ListEntry>
    decreases pages.len(),
{
    if pages.len() == 0 {
        Seq::<ListEntry>::empty()
    } else {
        pages[0].entries@ + entries_of(pages.skip(1))
    }
}

/// Listing a directory page by page shows each of its entries once, in order.
pub proof fn listing_through_shows_all(
    pages: Seq<ListResult>,
    entries: Seq<ListEntry>,
    offset: nat,
    limit: nat,
)
    requires
        limit > 0,
        offset <= listing::listing(entries).len() <= usize::MAX,
        lists_through(pages, entries, offset, limit),
    ensures
        forall|p: usize| #[trigger]
            listing::listing(entries).contains(p) <==> p < entries.len() && entries[p as int].name@
                != ".agent-remote"@,
        entries_of(pages) == listing::listing(entries).skip(offset as int).map_values(
            |p: usize| entries[p as int],
        ),
    decreases pages.len(),
{
    let order = listing::listing(entries);
    listing::listings_show_every_entry(entries, order);
    match pages[0].next_offset {
        Some(next) => {
            listing_through_shows_all(pages.skip(1), entries, next as nat, limit);
        },
        None => {
            assert(pages.skip(1).len() == 0);
            assert(entries_of(pages.skip(1)) =~= Seq::<ListEntry>::empty());
        },
    }
    assert(entries_of(pages) =~= order.skip(offset as int).map_values(
        |p: usize| entries[p as int],
    ));
}

/// What a link, a directory or anything else is listed as.
pub open spec fn spec_file_kind(is_symlink: bool, is_dir: bool) -> ListKind {
    if is_symlink {
        ListKind::Symlink
    } else if is_dir {
        ListKind::Dir
    } else {
        ListKind::File
    }
}

/// What a link, a directory or anything else is listed as.
pub fn file_kind(is_symlink: bool, is_dir: bool) -> (kind: ListKind)
    ensures
        kind == spec_file_kind(is_symlink, is_dir),
{
    if is_symlink {
        ListKind::Symlink
    } else if is_dir {
        ListKind::Dir
    } else {
        ListKind::File
    }
}

/// Whether `entry` describes what is found at `path`.
pub open spec fn describes(entry: FileEntry, path: Seq<char>, meta: NodeMeta) -> bool {
    &&& entry.path@ == path
    &&& entry.kind == spec_file_kind(meta.is_symlink, meta.is_dir)
    &&& entry.size == meta.size
    &&& entry.hash == (if meta.is_file {
        meta.hash
    } else {
        None
    })
    &&& entry.mode == Some(
        FileMode {
            readable: meta.mode & 0o400 != 0,
            writable: meta.mode & 0o200 != 0,
            executable: meta.mode & 0o111 != 0,
        },
    )
}

fn entry_for(client_path: &str, meta: NodeMeta) -> (entry: FileEntry)
    ensures
        describes(entry, client_path@, meta),
{
    FileEntry {
        path: client_path.to_owned(),
        kind: file_kind(meta.is_symlink, meta.is_dir),
        size: meta.size,
        hash: if meta.is_file {
            meta.hash
        } else {
            None
        },
        mode: Some(
            FileMode {
                readable: meta.mode & 0o400 != 0,
                writable: meta.mode & 0o200 != 0,
                executable: meta.mode & 0o111 != 0,
            },
        ),
    }
}

/// What a stat request is answered.
pub open spec fn stated(
    out: Result<ResultBody, ProtocolError>,
    path: Seq<char>,
    node: Result<Lookup<NodeMeta>, ProtocolError>,
) -> bool {
    match node {
        Err(cause) => out == Err::<ResultBody, ProtocolError>(cause),
        Ok(Lookup::Found(meta)) => out matches Ok(ResultBody::Stat { stat }) && describes(
            stat,
            path,
            meta,
        ),
        Ok(found) => out matches Err(e) && lookup_refusal(found, "stat"@, path, e),
    }
}

/// Describes what is at a path. `node` is what the path leads to, or the error
/// that refuses the path.
pub fn stat(path: &str, node: Result<Lookup<NodeMeta>, ProtocolError>) -> (out: Result<
    ResultBody,
    ProtocolError,
>)
    ensures
        stated(out, path@, node),
{
    match node {
        Err(e) => Err(e),
        Ok(Lookup::Missing) => Err(not_found(path)),
        Ok(Lookup::Failed(m)) => Err(lookup_failed("stat", m.as_str())),
        Ok(Lookup::Found(meta)) => Ok(ResultBody::Stat { stat: entry_for(path, meta) }),
    }
}

/// The first position from `i` on that lies between two characters, or the end.
pub open spec fn boundary_at_or_after(bytes: Seq<u8>, i: int) -> int
    decreases bytes.len() - i,
{
    if i >= bytes.len() {
        bytes.len() as int
    } else if vstd::utf8::is_char_boundary(bytes, i) {
        i
    } else {
        boundary_at_or_after(bytes, i + 1)
    }
}

/// The last position up to `i` that lies between two characters, or the start.
pub open spec fn boundary_at_or_before(bytes: Seq<u8>, i: int) -> int
    decreases i,
{
    if i <= 0 {
        0
    } else if vstd::utf8::is_char_boundary(bytes, i) {
        i
    } else {
        boundary_at_or_before(bytes, i - 1)
    }
}

/// The bytes asked for, or the default.
pub open spec fn read_limit(limit: Option<u64>) -> u64 {
    match limit {
        Some(n) => n,
        None => READ_DEFAULT_LIMIT,
    }
}

/// The position asked for, or the start.
pub open spec fn read_offset(offset: Option<u64>) -> u64 {
    match offset {
        Some(n) => n,
        None => 0,
    }
}

/// Where the page of a text ends that starts at `start`: `limit` bytes further,
/// and at the end of the character that would be cut there, unless the page
/// would then be longer than any page may be; in that case at its start.
pub open spec fn read_end(bytes: Seq<u8>, start: int, limit: int) -> int {
    if start + limit >= bytes.len() {
        bytes.len() as int
    } else if boundary_at_or_after(bytes, start + limit) - start <= READ_MAX_LIMIT {
        boundary_at_or_after(bytes, start + limit)
    } else {
        boundary_at_or_before(bytes, start + limit)
    }
}

/// Whether `page` is the page of a text that starts at `start`. No page has more
/// than [`READ_MAX_LIMIT`] bytes.
pub open spec fn is_read_page(page: ReadResult, bytes: Seq<u8>, start: int, limit: int) -> bool {
    let end = read_end(bytes, start, limit);
    &&& page.content@ == vstd::utf8::decode_utf8(bytes.subrange(start, end))
    &&& vstd::utf8::encode_utf8(page.content@).len() <= READ_MAX_LIMIT
    &&& page.hash matches Some(h) && h@ == hash::content_hash(bytes)
    &&& page.truncated == (end < bytes.len())
    &&& page.next_offset == (if end < bytes.len() {
        Some(end as u64)
    } else {
        None
    })
}

/// What reading the content `bytes` is answered.
pub open spec fn page_read(
    out: Result<ReadResult, ProtocolError>,
    bytes: Seq<u8>,
    offset: Option<u64>,
    limit: Option<u64>,
) -> bool {
    let start = read_offset(offset);
    let n = read_limit(limit);
    if !vstd::utf8::valid_utf8(bytes) {
        out matches Err(e) && e.says(
            ErrorCode::InvalidRequest,
            "file is not valid UTF-8; binary reads are not supported"@,
        )
    } else if n == 0 || n > READ_MAX_LIMIT {
        out matches Err(e) && e.says(
            ErrorCode::InvalidRequest,
            "read limit must be between 1 and 65536 bytes"@,
        )
    } else if start > bytes.len() {
        out matches Err(e) && e.says(
            ErrorCode::InvalidRequest,
            "offset "@ + text::decimal(start as nat) + " is past end of file ("@ + text::decimal(
                bytes.len(),
            ) + " bytes)"@,
        )
    } else if !vstd::utf8::is_char_boundary(bytes, start as int) {
        out matches Err(e) && e.says(
            ErrorCode::InvalidRequest,
            "offset "@ + text::decimal(start as nat) + " is not on a UTF-8 character boundary"@,
        )
    } else {
        out matches Ok(page) && is_read_page(page, bytes, start as int, n as int)
    }
}

fn boundary_at(bytes: &[u8], i: usize) -> (yes: bool)
    requires
        vstd::utf8::valid_utf8(bytes@),
        i <= bytes@.len(),
    ensures
        yes == vstd::utf8::is_char_boundary(bytes@, i as int),
{
    proof {
        vstd::utf8::is_char_boundary_start_end_of_seq(bytes@);
    }
    if i == bytes.len() {
        return true;
    }
    proof {
        vstd::utf8::is_char_boundary_iff_not_is_continuation_byte(bytes@, i as int);
    }
    let b: u8 = bytes[i];
    b < 0x80 || b > 0xbf
}

/// The first position from `target` on that lies between two characters, or the
/// end: rounding up makes sure that a page with any limit holds a character.
fn nearest_char_boundary_at_or_after(bytes: &[u8], target: usize) -> (i: usize)
    requires
        vstd::utf8::valid_utf8(bytes@),
    ensures
        i == boundary_at_or_after(bytes@, target as int),
        i <= bytes@.len(),
        vstd::utf8::is_char_boundary(bytes@, i as int),
{
    proof {
        vstd::utf8::is_char_boundary_start_end_of_seq(bytes@);
    }
    let n: usize = bytes.len();
    if target >= n {
        return n;
    }
    let mut i: usize = target;
    while i < n && !boundary_at(bytes, i)
        invariant
            i <= n,
            n == bytes@.len(),
            vstd::utf8::valid_utf8(bytes@),
            boundary_at_or_after(bytes@, target as int) == boundary_at_or_after(bytes@, i as int),
        decreases n - i,
    {
        i += 1;
    }
    i
}

/// The last position up to `target` that lies between two characters.
fn nearest_char_boundary_at_or_before(bytes: &[u8], target: usize) -> (i: usize)
    requires
        vstd::utf8::valid_utf8(bytes@),
        target <= bytes@.len(),
    ensures
        i == boundary_at_or_before(bytes@, target as int),
        i <= target,
        vstd::utf8::is_char_boundary(bytes@, i as int),
{
    proof {
        vstd::utf8::is_char_boundary_start_end_of_seq(bytes@);
    }
    let mut i: usize = target;
    while i > 0 && !boundary_at(bytes, i)
        invariant
            i <= target <= bytes@.len(),
            vstd::utf8::valid_utf8(bytes@),
            boundary_at_or_before(bytes@, target as int) == boundary_at_or_before(
                bytes@,
                i as int,
            ),
        decreases i,
    {
        i -= 1;
    }
    i
}

/// Where a page ends lies between two characters, not before its start, and a
/// page of the largest size is not exceeded.
proof fn read_end_is_boundary(bytes: Seq<u8>, start: int, limit: int)
    requires
        vstd::utf8::valid_utf8(bytes),
        0 <= start <= bytes.len(),
        vstd::utf8::is_char_boundary(bytes, start),
        limit > 0,
    ensures
        start <= read_end(bytes, start, limit) <= bytes.len(),
        vstd::utf8::is_char_boundary(bytes, read_end(bytes, start, limit)),
        start < bytes.len() ==> start < read_end(bytes, start, limit),
        limit <= READ_MAX_LIMIT ==> read_end(bytes, start, limit) - start <= READ_MAX_LIMIT,
{
    vstd::utf8::is_char_boundary_start_end_of_seq(bytes);
    if start + limit < bytes.len() {
        boundary_after(bytes, start + limit);
        boundary_before(bytes, start + limit);
        boundaries_are_close(bytes, start + limit);
    }
}

proof fn boundary_before(bytes: Seq<u8>, i: int)
    requires
        vstd::utf8::valid_utf8(bytes),
        0 <= i <= bytes.len(),
    ensures
        0 <= boundary_at_or_before(bytes, i) <= i,
        vstd::utf8::is_char_boundary(bytes, boundary_at_or_before(bytes, i)),
        forall|j: int|
            boundary_at_or_before(bytes, i) < j <= i ==> !#[trigger] vstd::utf8::is_char_boundary(
                bytes,
                j,
            ),
    decreases i,
{
    vstd::utf8::is_char_boundary_start_end_of_seq(bytes);
    if i > 0 && !vstd::utf8::is_char_boundary(bytes, i) {
        boundary_before(bytes, i - 1);
    }
}

/// The boundaries on both sides of a position are those of one character.
proof fn boundaries_are_close(bytes: Seq<u8>, i: int)
    requires
        vstd::utf8::valid_utf8(bytes),
        0 <= i < bytes.len(),
    ensures
        boundary_at_or_after(bytes, i) - boundary_at_or_before(bytes, i) <= 4,
{
    boundary_before(bytes, i);
    boundary_after(bytes, i);
    let d = boundary_at_or_before(bytes, i);
    let tail = bytes.subrange(d, bytes.len() as int);
    vstd::utf8::valid_utf8_split(bytes, d);
    let len = vstd::utf8::length_of_first_scalar(tail);
    assert(1 <= len <= 4 && len <= tail.len());
    let rest = vstd::utf8::pop_first_scalar(tail);
    vstd::utf8::is_char_boundary_start_end_of_seq(rest);
    assert(vstd::utf8::is_char_boundary(tail, len));
    vstd::utf8::is_char_boundary_start_end_of_seq(bytes);
    if d + len < bytes.len() {
        vstd::utf8::is_char_boundary_iff_not_is_continuation_byte(bytes, d + len);
        vstd::utf8::is_char_boundary_iff_not_is_continuation_byte(tail, len);
    }
    assert(vstd::utf8::is_char_boundary(bytes, d + len));
    assert(d + len > i || d == i);
    no_boundary_between(bytes, i, d + len);
}

proof fn no_boundary_between(bytes: Seq<u8>, i: int, b: int)
    requires
        0 <= i <= b <= bytes.len(),
        vstd::utf8::is_char_boundary(bytes, b),
    ensures
        boundary_at_or_after(bytes, i) <= b,
    decreases b - i,
{
    if i < b && !vstd::utf8::is_char_boundary(bytes, i) {
        no_boundary_between(bytes, i + 1, b);
    }
}

proof fn boundary_after(bytes: Seq<u8>, i: int)
    requires
        vstd::utf8::valid_utf8(bytes),
        0 <= i <= bytes.len(),
    ensures
        i <= boundary_at_or_after(bytes, i) <= bytes.len(),
        vstd::utf8::is_char_boundary(bytes, boundary_at_or_after(bytes, i)),
    decreases bytes.len() - i,
{
    vstd::utf8::is_char_boundary_start_end_of_seq(bytes);
    if i < bytes.len() && !vstd::utf8::is_char_boundary(bytes, i) {
        boundary_after(bytes, i + 1);
    }
}

/// What lies between two boundaries is well-formed.
proof fn between_boundaries(bytes: Seq<u8>, a: int, b: int)
    requires
        vstd::utf8::valid_utf8(bytes),
        0 <= a <= b <= bytes.len(),
        vstd::utf8::is_char_boundary(bytes, a),
        vstd::utf8::is_char_boundary(bytes, b),
    ensures
        vstd::utf8::valid_utf8(bytes.subrange(a, b)),
        vstd::utf8::valid_utf8(bytes.subrange(b, bytes.len() as int)),
        vstd::utf8::valid_utf8(bytes.subrange(a, bytes.len() as int)),
        vstd::utf8::decode_utf8(bytes.subrange(a, bytes.len() as int)) == vstd::utf8::decode_utf8(
            bytes.subrange(a, b),
        ) + vstd::utf8::decode_utf8(bytes.subrange(b, bytes.len() as int)),
{
    let tail = bytes.subrange(a, bytes.len() as int);
    vstd::utf8::valid_utf8_split(bytes, a);
    vstd::utf8::valid_utf8_split(bytes, b);
    vstd::utf8::is_char_boundary_start_end_of_seq(tail);
    if b < bytes.len() {
        vstd::utf8::is_char_boundary_iff_not_is_continuation_byte(bytes, b);
        vstd::utf8::is_char_boundary_iff_not_is_continuation_byte(tail, b - a);
    }
    assert(vstd::utf8::is_char_boundary(tail, b - a));
    vstd::utf8::valid_utf8_split(tail, b - a);
    vstd::utf8::decode_utf8_split(tail, b - a);
    assert(tail.subrange(0, b - a) =~= bytes.subrange(a, b));
    assert(tail.subrange(b - a, tail.len() as int) =~= bytes.subrange(b, bytes.len() as int));
}

/// The page of a text that starts at an offset.
pub fn read_page(bytes: &[u8], offset: Option<u64>, limit: Option<u64>) -> (out: Result<
    ReadResult,
    ProtocolError,
>)
    ensures
        page_read(out, bytes@, offset, limit),
{
    if utf8::decode_strict(bytes).is_none() {
        return Err(
            ProtocolError::new(
                ErrorCode::InvalidRequest,
                "file is not valid UTF-8; binary reads are not supported",
            ),
        );
    }
    let full_hash = hash::hash_bytes(bytes);
    let offset: u64 = match offset {
        Some(n) => n,
        None => 0,
    };
    let limit: u64 = match limit {
        Some(n) => n,
        None => READ_DEFAULT_LIMIT,
    };
    if limit == 0 || limit > READ_MAX_LIMIT {
        return Err(
            ProtocolError::new(
                ErrorCode::InvalidRequest,
                "read limit must be between 1 and 65536 bytes",
            ),
        );
    }
    let len: usize = bytes.len();
    if offset > len as u64 {
        let m = text::concat5(
            "offset ",
            text::decimal_u64(offset).as_str(),
            " is past end of file (",
            text::decimal_u64(len as u64).as_str(),
            " bytes)",
        );
        return Err(ProtocolError::new(ErrorCode::InvalidRequest, m.as_str()));
    }
    let start: usize = offset as usize;
    if !boundary_at(bytes, start) {
        let m = text::concat3(
            "offset ",
            text::decimal_u64(offset).as_str(),
            " is not on a UTF-8 character boundary",
        );
        return Err(ProtocolError::new(ErrorCode::InvalidRequest, m.as_str()));
    }
    let end: usize = if limit >= (len - start) as u64 {
        len
    } else {
        let up: usize = nearest_char_boundary_at_or_after(bytes, start + limit as usize);
        proof {
            boundary_after(bytes@, start + limit);
        }
        if (up - start) as u64 <= READ_MAX_LIMIT {
            up
        } else {
            nearest_char_boundary_at_or_before(bytes, start + limit as usize)
        }
    };
    proof {
        read_end_is_boundary(bytes@, start as int, limit as int);
        between_boundaries(bytes@, start as int, end as int);
        vstd::utf8::decode_utf8_encode_utf8(bytes@.subrange(start as int, end as int));
    }
    let part = vstd::slice::slice_subrange(bytes, start, end);
    let content = match utf8::decode_strict(part) {
        Some(s) => s,
        None => String::new(),
    };
    let truncated = end < len;
    Ok(
        ReadResult {
            content,
            hash: Some(full_hash),
            truncated,
            next_offset: if truncated {
                Some(end as u64)
            } else {
                None
            },
        },
    )
}

/// What a read request is answered.
pub open spec fn read_answered(
    out: Result<ResultBody, ProtocolError>,
    path: Seq<char>,
    node: Result<Lookup<Content>, ProtocolError>,
    offset: Option<u64>,
    limit: Option<u64>,
) -> bool {
    match node {
        Err(cause) => out == Err::<ResultBody, ProtocolError>(cause),
        Ok(Lookup::Found(Content::Directory)) => out matches Err(e) && e.says(
            ErrorCode::IsADirectory,
            "is a directory: "@ + path,
        ),
        Ok(Lookup::Found(Content::Unreadable(m))) => out matches Err(e) && e.says(
            ErrorCode::IoError,
            "read failed: "@ + m@,
        ),
        Ok(Lookup::Found(Content::Bytes(bytes))) => match out {
            Ok(ResultBody::Read(page)) => page_read(Ok(page), bytes@, offset, limit),
            Ok(_) => false,
            Err(e) => page_read(Err(e), bytes@, offset, limit),
        },
        Ok(found) => out matches Err(e) && lookup_refusal(found, "read"@, path, e),
    }
}

/// Reads a text file, a page at a time. `node` is what the path leads to, or the
/// error that refuses the path.
pub fn read(
    path: &str,
    node: Result<Lookup<Content>, ProtocolError>,
    offset: Option<u64>,
    limit: Option<u64>,
) -> (out: Result<ResultBody, ProtocolError>)
    ensures
        read_answered(out, path@, node, offset, limit),
{
    match node {
        Err(e) => Err(e),
        Ok(Lookup::Missing) => Err(not_found(path)),
        Ok(Lookup::Failed(m)) => Err(lookup_failed("read", m.as_str())),
        Ok(Lookup::Found(Content::Directory)) => {
            let m = text::concat("is a directory: ", path);
            Err(ProtocolError::new(ErrorCode::IsADirectory, m.as_str()))
        },
        Ok(Lookup::Found(Content::Unreadable(m))) => {
            let m = text::concat("read failed: ", m.as_str());
            Err(ProtocolError::new(ErrorCode::IoError, m.as_str()))
        },
        Ok(Lookup::Found(Content::Bytes(bytes))) => {
            match read_page(bytes.as_slice(), offset, limit) {
                Ok(page) => Ok(ResultBody::Read(page)),
                Err(e) => Err(e),
            }
        },
    }
}

/// Reading makes progress: a page that starts before the end of the text ends
/// behind its start, and the offset that it gives for the next page is one at
/// which a page can start.
pub proof fn reading_makes_progress(page: ReadResult, bytes: Seq<u8>, start: int, limit: int)
    requires
        vstd::utf8::valid_utf8(bytes),
        bytes.len() <= u64::MAX,
        0 <= start < bytes.len(),
        vstd::utf8::is_char_boundary(bytes, start),
        limit > 0,
        is_read_page(page, bytes, start, limit),
    ensures
        page.content@.len() > 0,
        page.truncated == (page.next_offset is Some),
        page.next_offset matches Some(next) ==> start < next && next < bytes.len()
            && vstd::utf8::is_char_boundary(bytes, next as int),
{
    read_end_is_boundary(bytes, start, limit);
    let end = read_end(bytes, start, limit);
    between_boundaries(bytes, start, end);
    assert(bytes.subrange(start, end).len() > 0);
}

/// Pages put together give the text: what follows the start of a page is the
/// page and what follows its end, and the last page is all that is left.
pub proof fn pages_make_up_the_text(page: ReadResult, bytes: Seq<u8>, start: int, limit: int)
    requires
        vstd::utf8::valid_utf8(bytes),
        bytes.len() <= u64::MAX,
        0 <= start <= bytes.len(),
        vstd::utf8::is_char_boundary(bytes, start),
        limit > 0,
        is_read_page(page, bytes, start, limit),
    ensures
        match page.next_offset {
            Some(next) => vstd::utf8::decode_utf8(bytes.subrange(start, bytes.len() as int))
                == page.content@ + vstd::utf8::decode_utf8(
                bytes.subrange(next as int, bytes.len() as int),
            ),
            None => vstd::utf8::decode_utf8(bytes.subrange(start, bytes.len() as int))
                == page.content@,
        },
{
    read_end_is_boundary(bytes, start, limit);
    between_boundaries(bytes, start, read_end(bytes, start, limit));
}

/// Whether `base` lets a mutation of a file with the hash `found` go on.
pub open spec fn hash_fits(found: Option<Seq<char>>, base: Option<Seq<char>>) -> bool {
    base matches Some(h) ==> found == Some(h)
}

/// Whether `e` is the error for a file whose hash is not the expected one.
pub open spec fn stale_hash(found: Option<Seq<char>>, base: Seq<char>, e: ProtocolError) -> bool {
    match found {
        Some(actual) => e.says_with_hashes(
            ErrorCode::StaleFile,
            "file changed since base_hash"@,
            base,
            actual,
        ),
        None => e.says_with_hashes(
            ErrorCode::StaleFile,
            "file does not exist but base_hash was given"@,
            base,
            hash::no_content_hash(),
        ),
    }
}

/// Whether `base` lets a mutation of a file in state `current` go on.
pub open spec fn base_fits(current: Option<Seq<u8>>, base: Option<Seq<char>>) -> bool {
    hash_fits(hash::state_hash(current), base)
}

/// Whether `e` is the error for a file whose state is not the expected one.
pub open spec fn stale(current: Option<Seq<u8>>, base: Seq<char>, e: ProtocolError) -> bool {
    stale_hash(hash::state_hash(current), base, e)
}

/// The bytes of a file, if there is one.
pub open spec fn bytes_of(current: Option<Vec<u8>>) -> Option<Seq<u8>> {
    match current {
        Some(bytes) => Some(bytes@),
        None => None,
    }
}

/// The characters of a string, if there is one.
pub open spec fn chars_in(s: Option<String>) -> Option<Seq<char>> {
    match s {
        Some(s) => Some(s@),
        None => None,
    }
}

/// Checks the hash that was found of a file against the one that the client
/// expects, where it expects one.
pub fn check_hash(found: Option<String>, base_hash: &Option<String>) -> (out: Result<
    Option<String>,
    ProtocolError,
>)
    ensures
        match out {
            Ok(h) => hash_fits(chars_in(found), chars_in(*base_hash)) && h == found,
            Err(e) => {
                &&& !hash_fits(chars_in(found), chars_in(*base_hash))
                &&& base_hash matches Some(h)
                &&& stale_hash(chars_in(found), h@, e)
            },
        },
{
    if let Some(expected) = base_hash {
        match &found {
            Some(actual) => {
                if !text::str_eq(actual.as_str(), expected.as_str()) {
                    let e = ProtocolError::new(
                        ErrorCode::StaleFile,
                        "file changed since base_hash",
                    );
                    return Err(e.with_hashes(expected.clone(), actual.clone()));
                }
            },
            None => {
                let e = ProtocolError::new(
                    ErrorCode::StaleFile,
                    "file does not exist but base_hash was given",
                );
                return Err(e.with_hashes(expected.clone(), "sha256:".to_owned()));
            },
        }
    }
    Ok(found)
}

/// Checks that a file is in the state that the client expects, where it expects
/// one. Returns the hash of the file.
pub fn check_base_hash(current: &Option<Vec<u8>>, base_hash: &Option<String>) -> (out: Result<
    Option<String>,
    ProtocolError,
>)
    ensures
        match out {
            Ok(h) => base_fits(bytes_of(*current), chars_in(*base_hash)) && chars_in(h)
                == hash::state_hash(bytes_of(*current)),
            Err(e) => {
                &&& !base_fits(bytes_of(*current), chars_in(*base_hash))
                &&& base_hash matches Some(h)
                &&& stale(bytes_of(*current), h@, e)
            },
        },
{
    check_hash(hash::hash_state(current), base_hash)
}

/// What a mutation puts in place of a file: new content, or nothing.
pub enum Effect {
    Put(Vec<u8>),
    Remove,
}

impl Effect {
    /// What the file is after the effect.
    pub open spec fn state(self) -> Option<Seq<u8>> {
        match self {
            Effect::Put(bytes) => Some(bytes@),
            Effect::Remove => None,
        }
    }
}

/// A mutation that was granted: what it does, and the hashes of the file before
/// and after it.
pub struct Mutation {
    pub kind: OperationKind,
    pub path: String,
    pub before_hash: Option<String>,
    pub after_hash: String,
    pub effect: Effect,
}

/// The hash of a file, or the one that stands for no file.
pub open spec fn hash_of_state(state: Option<Seq<u8>>) -> Seq<char> {
    match state {
        Some(bytes) => hash::content_hash(bytes),
        None => hash::no_content_hash(),
    }
}

impl Mutation {
    /// Whether this is the mutation of a file in state `before` at `path` that
    /// leaves it in state `after`.
    pub open spec fn turns(
        self,
        kind: OperationKind,
        path: Seq<char>,
        before: Option<Seq<u8>>,
        after: Option<Seq<u8>>,
    ) -> bool {
        &&& self.kind == kind
        &&& self.path@ == path
        &&& chars_in(self.before_hash) == hash::state_hash(before)
        &&& self.after_hash@ == hash_of_state(after)
        &&& self.effect.state() == after
    }
}

/// What is decided of a write.
pub open spec fn write_decided(
    out: Result<Mutation, ProtocolError>,
    path: Seq<char>,
    current: Option<Seq<u8>>,
    content: Seq<char>,
    base: Option<Seq<char>>,
) -> bool {
    match out {
        Ok(m) => base_fits(current, base) && m.turns(
            OperationKind::Write,
            path,
            current,
            Some(vstd::utf8::encode_utf8(content)),
        ),
        Err(e) => !base_fits(current, base) && stale(current, base->0, e),
    }
}

/// Grants the write of a whole file, or refuses it as stale.
pub fn write(
    path: &str,
    current: &Option<Vec<u8>>,
    content: &str,
    base_hash: &Option<String>,
) -> (out: Result<Mutation, ProtocolError>)
    ensures
        write_decided(out, path@, bytes_of(*current), content@, chars_in(*base_hash)),
{
    let before_hash = match check_base_hash(current, base_hash) {
        Ok(h) => h,
        Err(e) => {
            return Err(e);
        },
    };
    let bytes = content.as_bytes();
    let after_hash = hash::hash_bytes(bytes);
    Ok(
        Mutation {
            kind: OperationKind::Write,
            path: path.to_owned(),
            before_hash,
            after_hash,
            effect: Effect::Put(text::copy_bytes(bytes)),
        },
    )
}

/// What becomes of the content of a file under an edit script.
pub open spec fn patched_content(bytes: Seq<u8>, script: Seq<char>) -> Result<
    Seq<u8>,
    Seq<char>,
> {
    match crate::patch::patched(vstd::utf8::decode_utf8(bytes), script) {
        Ok(text) => Ok(vstd::utf8::encode_utf8(text)),
        Err(m) => Err(m),
    }
}

/// What is decided of a patch.
pub open spec fn patch_decided(
    out: Result<Mutation, ProtocolError>,
    path: Seq<char>,
    current: Option<Seq<u8>>,
    base: Seq<char>,
    script: Seq<char>,
) -> bool {
    if !base_fits(current, Some(base)) {
        out matches Err(e) && stale(current, base, e)
    } else if !vstd::utf8::valid_utf8(current->0) {
        out matches Err(e) && e.says(
            ErrorCode::InvalidRequest,
            "patch target is not valid UTF-8; patching binary files is unsupported"@,
        )
    } else {
        match patched_content(current->0, script) {
            Ok(after) => out matches Ok(m) && m.turns(
                OperationKind::Patch,
                path,
                current,
                Some(after),
            ),
            Err(message) => out matches Err(e) && e.says(ErrorCode::PatchFailed, message),
        }
    }
}

/// Grants a patch, or refuses it: as stale, for a file that is no text, or for
/// its script. A patch that is refused has no effect.
pub fn patch(
    path: &str,
    current: &Option<Vec<u8>>,
    base_hash: &str,
    patch_text: &str,
) -> (out: Result<Mutation, ProtocolError>)
    ensures
        patch_decided(out, path@, bytes_of(*current), base_hash@, patch_text@),
{
    let base = Some(base_hash.to_owned());
    let before_hash = match check_base_hash(current, &base) {
        Ok(h) => h,
        Err(e) => {
            return Err(e);
        },
    };
    let original = match current {
        Some(bytes) => bytes,
        None => {
            return Err(not_found(path));
        },
    };
    let original_text = match utf8::decode_strict(original.as_slice()) {
        Some(s) => s,
        None => {
            return Err(
                ProtocolError::new(
                    ErrorCode::InvalidRequest,
                    "patch target is not valid UTF-8; patching binary files is unsupported",
                ),
            );
        },
    };
    let new_content = match apply_patch(original_text.as_str(), patch_text) {
        Ok(s) => s,
        Err(e) => {
            return Err(e);
        },
    };
    let bytes = new_content.as_str().as_bytes();
    let after_hash = hash::hash_bytes(bytes);
    Ok(
        Mutation {
            kind: OperationKind::Patch,
            path: path.to_owned(),
            before_hash,
            after_hash,
            effect: Effect::Put(text::copy_bytes(bytes)),
        },
    )
}

/// What is decided of a removal.
pub open spec fn delete_decided(
    out: Result<Mutation, ProtocolError>,
    path: Seq<char>,
    is_dir: bool,
    current: Option<Seq<u8>>,
) -> bool {
    if is_dir {
        out matches Err(e) && e.says(ErrorCode::IsADirectory, "not a file: "@ + path)
    } else if current is None {
        out matches Err(e) && e.says(ErrorCode::NotFound, "not found: "@ + path)
    } else {
        out matches Ok(m) && m.turns(OperationKind::Delete, path, current, None)
    }
}

/// Grants the removal of a file, or refuses it for a directory or where there is
/// no file.
pub fn delete(path: &str, is_dir: bool, current: &Option<Vec<u8>>) -> (out: Result<
    Mutation,
    ProtocolError,
>)
    ensures
        delete_decided(out, path@, is_dir, bytes_of(*current)),
{
    if is_dir {
        let m = text::concat("not a file: ", path);
        return Err(ProtocolError::new(ErrorCode::IsADirectory, m.as_str()));
    }
    match current {
        None => Err(not_found(path)),
        Some(bytes) => Ok(
            Mutation {
                kind: OperationKind::Delete,
                path: path.to_owned(),
                before_hash: Some(hash::hash_bytes(bytes.as_slice())),
                after_hash: "sha256:".to_owned(),
                effect: Effect::Remove,
            },
        ),
    }
}

/// The hash that a page carries is one that the next mutation of the same
/// content accepts as its base.
pub proof fn read_hash_is_a_base(page: ReadResult, bytes: Seq<u8>, start: int, limit: int)
    requires
        is_read_page(page, bytes, start, limit),
    ensures
        page.hash is Some,
        base_fits(Some(bytes), Some(page.hash->0@)),
{
}

/// The hash that a mutation reports is one that the next mutation accepts as its
/// base, for as long as the file stays as the mutation left it.
pub proof fn reported_hash_is_a_base(
    m: Mutation,
    kind: OperationKind,
    path: Seq<char>,
    before: Option<Seq<u8>>,
    after: Seq<u8>,
)
    requires
        m.turns(kind, path, before, Some(after)),
    ensures
        base_fits(m.effect.state(), Some(m.after_hash@)),
{
}

/// Whether `pages` are read one after the other: the first one at `offset`, each
/// further one at the offset that the one before it gives, and the last one
/// gives none. Each may have been asked for with a limit of its own.
pub open spec fn reads_through(
    pages: Seq<ReadResult>,
    bytes: Seq<u8>,
    offset: Option<u64>,
    limits: Seq<Option<u64>>,
) -> bool
    decreases pages.len(),
{
    &&& pages.len() > 0
    &&& limits.len() == pages.len()
    &&& page_read(Ok(pages[0]), bytes, offset, limits[0])
    &&& match pages[0].next_offset {
        Some(next) => reads_through(pages.skip(1), bytes, Some(next), limits.skip(1)),
        None => pages.len() == 1,
    }
}

/// The contents of pages, one after the other.
pub open spec fn contents_of(pages: Seq<ReadResult>) -> Seq<char>
    decreases pages.len(),
{
    if pages.len() == 0 {
        Seq::<char>::empty()
    } else {
        pages[0].content@ + contents_of(pages.skip(1))
    }
}

/// Reading through a text from an offset gives all of the text from there on,
/// whatever the limits.
pub proof fn reading_through_gives_the_rest(
    pages: Seq<ReadResult>,
    bytes: Seq<u8>,
    offset: Option<u64>,
    limits: Seq<Option<u64>>,
)
    requires
        bytes.len() <= u64::MAX,
        reads_through(pages, bytes, offset, limits),
    ensures
        contents_of(pages) == vstd::utf8::decode_utf8(
            bytes.subrange(read_offset(offset) as int, bytes.len() as int),
        ),
    decreases pages.len(),
{
    let start = read_offset(offset) as int;
    pages_make_up_the_text(pages[0], bytes, start, read_limit(limits[0]) as int);
    match pages[0].next_offset {
        Some(next) => {
            reading_through_gives_the_rest(pages.skip(1), bytes, Some(next), limits.skip(1));
        },
        None => {
            assert(pages.skip(1).len() == 0);
            assert(contents_of(pages.skip(1)) =~= Seq::<char>::empty());
            assert(contents_of(pages) =~= pages[0].content@);
        },
    }
}

/// A file that is read back after a write gives the text that was written.
pub proof fn written_text_reads_back(
    m: Mutation,
    path: Seq<char>,
    current: Option<Seq<u8>>,
    content: Seq<char>,
    base: Option<Seq<char>>,
    pages: Seq<ReadResult>,
    limits: Seq<Option<u64>>,
)
    requires
        write_decided(Ok(m), path, current, content, base),
        m.effect.state() matches Some(bytes) && bytes.len() <= u64::MAX,
        reads_through(pages, m.effect.state()->0, None, limits),
    ensures
        contents_of(pages) == content,
{
    let bytes = vstd::utf8::encode_utf8(content);
    reading_through_gives_the_rest(pages, bytes, None, limits);
    assert(bytes.subrange(0, bytes.len() as int) =~= bytes);
    vstd::utf8::encode_utf8_decode_utf8(content);
}

/// A text is read from any offset that lies between two of its characters, the
/// end among them, with any limit from 1 to 65536 bytes, and else not at all. The
/// page is a run of the text's bytes from the offset on: as many as were asked
/// for, or all that are left; but for a character that the limit would cut, which
/// is whole on the page where the page may still grow, and else not on it. The
/// page tells where the next one starts, and the hash of the whole text.
pub proof fn reads_are_granted_in_full(
    out: Result<ReadResult, ProtocolError>,
    bytes: Seq<u8>,
    offset: Option<u64>,
    limit: Option<u64>,
)
    requires
        page_read(out, bytes, offset, limit),
        bytes.len() <= u64::MAX,
    ensures
        ({
            let from = match offset {
                Some(n) => n as int,
                None => 0,
            };
            let most = match limit {
                Some(n) => n as int,
                None => 65536,
            };
            &&& out is Ok <==> {
                &&& vstd::utf8::valid_utf8(bytes)
                &&& 1 <= most <= 65536
                &&& from <= bytes.len()
                &&& vstd::utf8::is_char_boundary(bytes, from)
            }
            &&& out matches Err(e) ==> e.code == ErrorCode::InvalidRequest
            &&& out matches Ok(page) ==> {
                let sent = vstd::utf8::encode_utf8(page.content@);
                let end = from + sent.len();
                &&& end <= bytes.len()
                &&& sent == bytes.subrange(from, end)
                &&& sent.len() <= 65536
                &&& from + most >= bytes.len() ==> end == bytes.len()
                &&& from + most < bytes.len() ==> {
                    &&& vstd::utf8::is_char_boundary(bytes, from + most) ==> sent.len() == most
                    &&& most - 3 <= sent.len() <= most + 3
                    &&& sent.len() < most ==> most > 65533
                }
                &&& page.truncated <==> end < bytes.len()
                &&& page.next_offset == (if end < bytes.len() {
                    Some(end as u64)
                } else {
                    None
                })
                &&& page.hash matches Some(h) && h@ == "sha256:"@ + hash::hex(
                    hash::sha256(bytes),
                )
            }
        }),
{
    let from = match offset {
        Some(n) => n as int,
        None => 0,
    };
    let most = match limit {
        Some(n) => n as int,
        None => 65536,
    };
    if out is Ok {
        let page = out->Ok_0;
        let end = read_end(bytes, from, most);
        read_end_is_boundary(bytes, from, most);
        between_boundaries(bytes, from, end);
        vstd::utf8::decode_utf8_encode_utf8(bytes.subrange(from, end));
        if from + most < bytes.len() {
            boundary_after(bytes, from + most);
            boundary_before(bytes, from + most);
            boundaries_are_close(bytes, from + most);
        }
    }
}

/// A description tells what is at the path: a link for a link, a directory for a
/// directory that is none, and a file for anything else, with its size, the hash
/// of a plain file, and whether its owner may read and write it and anyone run it.
pub proof fn descriptions_tell_what_is_there(
    out: Result<ResultBody, ProtocolError>,
    path: Seq<char>,
    meta: NodeMeta,
)
    requires
        stated(out, path, Ok(Lookup::Found(meta))),
    ensures
        out matches Ok(ResultBody::Stat { stat }) && {
            &&& stat.path@ == path
            &&& meta.is_symlink ==> stat.kind == ListKind::Symlink
            &&& !meta.is_symlink && meta.is_dir ==> stat.kind == ListKind::Dir
            &&& !meta.is_symlink && !meta.is_dir ==> stat.kind == ListKind::File
            &&& stat.size == meta.size
            &&& meta.is_file ==> stat.hash == meta.hash
            &&& !meta.is_file ==> stat.hash is None
            &&& stat.mode matches Some(mode) && {
                &&& mode.readable <==> meta.mode & 256 != 0
                &&& mode.writable <==> meta.mode & 128 != 0
                &&& mode.executable <==> meta.mode & 73 != 0
            }
        },
{
}

/// Where nothing is at a path, or nothing can be seen there, each of the requests
/// that look at it says so, and none makes an answer up.
pub proof fn missing_paths_are_told(
    path: Seq<char>,
    cause: String,
    refused: ProtocolError,
    out: Result<ResultBody, ProtocolError>,
)
    ensures
        stated(out, path, Ok(Lookup::Missing)) || read_answered(
            out,
            path,
            Ok(Lookup::Missing),
            None,
            None,
        ) || listed(out, path, Ok(Lookup::Missing), None, None) ==> out is Err
            && out->Err_0.code == ErrorCode::NotFound && out->Err_0.message@ == "not found: "@
            + path,
        stated(out, path, Ok(Lookup::Failed(cause))) ==> out is Err && out->Err_0.code
            == ErrorCode::IoError && out->Err_0.message@ == "stat"@ + " failed: "@ + cause@,
        read_answered(out, path, Ok(Lookup::Failed(cause)), None, None) ==> out is Err
            && out->Err_0.code == ErrorCode::IoError && out->Err_0.message@ == "read"@
            + " failed: "@ + cause@,
        listed(out, path, Ok(Lookup::Failed(cause)), None, None) ==> out is Err
            && out->Err_0.code == ErrorCode::IoError && out->Err_0.message@ == "list"@
            + " failed: "@ + cause@,
        stated(out, path, Err(refused)) || read_answered(out, path, Err(refused), None, None)
            || listed(out, path, Err(refused), None, None) ==> out is Err && out->Err_0 == refused,
        read_answered(out, path, Ok(Lookup::Found(Content::Directory)), None, None) ==> out is Err
            && out->Err_0.code == ErrorCode::IsADirectory,
        listed(out, path, Ok(Lookup::Found(Directory::NotADirectory)), None, None) ==> out is Err
            && out->Err_0.code == ErrorCode::NotADirectory,
{
}

/// What a file holds that can be read is read.
pub proof fn files_are_read(
    out: Result<ResultBody, ProtocolError>,
    path: Seq<char>,
    bytes: Vec<u8>,
    offset: Option<u64>,
    limit: Option<u64>,
)
    requires
        read_answered(out, path, Ok(Lookup::Found(Content::Bytes(bytes))), offset, limit),
    ensures
        match out {
            Ok(body) => body matches ResultBody::Read(page) && page_read(
                Ok(page),
                bytes@,
                offset,
                limit,
            ),
            Err(e) => page_read(Err(e), bytes@, offset, limit),
        },
{
}

/// A write is granted exactly where no hash was given, or the file is there and
/// the hash is its own. It puts the text in place of the file, all of it, and
/// tells the hashes of the file before and after.
pub proof fn writes_put_the_text(
    out: Result<Mutation, ProtocolError>,
    path: Seq<char>,
    current: Option<Seq<u8>>,
    content: Seq<char>,
    base: Option<Seq<char>>,
)
    requires
        write_decided(out, path, current, content, base),
    ensures
        out is Ok <==> base is None || (current is Some && base->0 == "sha256:"@ + hash::hex(
            hash::sha256(current->0),
        )),
        out matches Err(e) ==> {
            &&& e.code == ErrorCode::StaleFile
            &&& e.expected_hash matches Some(h) && h@ == base->0
            &&& e.actual_hash matches Some(h) && h@ == match current {
                Some(bytes) => "sha256:"@ + hash::hex(hash::sha256(bytes)),
                None => "sha256:"@,
            }
        },
        out matches Ok(m) ==> {
            &&& m.kind == OperationKind::Write
            &&& m.path@ == path
            &&& m.effect matches Effect::Put(bytes) && bytes@ == vstd::utf8::encode_utf8(content)
            &&& m.after_hash@ == "sha256:"@ + hash::hex(
                hash::sha256(vstd::utf8::encode_utf8(content)),
            )
            &&& m.before_hash is Some <==> current is Some
            &&& m.before_hash matches Some(h) ==> h@ == "sha256:"@ + hash::hex(
                hash::sha256(current->0),
            )
        },
{
}

/// A patch is granted exactly where the file is there, the hash is its own, it is
/// a text, and the script applies to it. It puts the patched text in place of the
/// file.
pub proof fn patches_put_the_patched_text(
    out: Result<Mutation, ProtocolError>,
    path: Seq<char>,
    current: Option<Seq<u8>>,
    base: Seq<char>,
    script: Seq<char>,
)
    requires
        patch_decided(out, path, current, base, script),
    ensures
        out is Ok <==> {
            &&& current is Some
            &&& base == "sha256:"@ + hash::hex(hash::sha256(current->0))
            &&& vstd::utf8::valid_utf8(current->0)
            &&& crate::patch::patched(vstd::utf8::decode_utf8(current->0), script) is Ok
        },
        current is None || base != "sha256:"@ + hash::hex(hash::sha256(current->0)) ==> out is Err
            && out->Err_0.code == ErrorCode::StaleFile,
        out matches Err(e) ==> e.code == ErrorCode::StaleFile || e.code == ErrorCode::InvalidRequest
            || (e.code == ErrorCode::PatchFailed && crate::patch::patched(
            vstd::utf8::decode_utf8(current->0),
            script,
        ) == Err::<Seq<char>, Seq<char>>(e.message@)),
        out matches Ok(m) ==> {
            let text = crate::patch::patched(vstd::utf8::decode_utf8(current->0), script)->Ok_0;
            &&& m.kind == OperationKind::Patch
            &&& m.path@ == path
            &&& m.effect matches Effect::Put(bytes) && bytes@ == vstd::utf8::encode_utf8(text)
            &&& m.after_hash@ == "sha256:"@ + hash::hex(
                hash::sha256(vstd::utf8::encode_utf8(text)),
            )
            &&& m.before_hash matches Some(h) && h@ == base
        },
{
}

/// A removal is granted exactly where there is a file that is no directory. It
/// leaves nothing at the path, and tells the hash of what was there.
pub proof fn removals_leave_nothing(
    out: Result<Mutation, ProtocolError>,
    path: Seq<char>,
    is_dir: bool,
    current: Option<Seq<u8>>,
)
    requires
        delete_decided(out, path, is_dir, current),
    ensures
        out is Ok <==> !is_dir && current is Some,
        is_dir ==> out is Err && out->Err_0.code == ErrorCode::IsADirectory,
        !is_dir && current is None ==> out is Err && out->Err_0.code == ErrorCode::NotFound,
        out matches Ok(m) ==> {
            &&& m.kind == OperationKind::Delete
            &&& m.path@ == path
            &&& m.effect is Remove
            &&& m.after_hash@ == "sha256:"@
            &&& m.before_hash matches Some(h) && h@ == "sha256:"@ + hash::hex(
                hash::sha256(current->0),
            )
        },
{
}

}
