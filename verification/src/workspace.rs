//! The workspace boundary: which paths a request may name, and what they mean.

use vstd::prelude::*;

use crate::error::{ErrorCode, ProtocolError};
use crate::hash;
use crate::text;

verus! {

/// The directories that paths are resolved in.
pub struct Workspace {
    pub root: String,
    pub scratch_root: String,
}

/// Which directory a path is resolved in.
#[derive(Debug, Clone, Copy, PartialEq, Eq, Structural)]
pub enum Base {
    Root,
    Scratch,
}

/// What a path means: a directory, and the names that lead on from there.
pub struct Place {
    pub base: Base,
    pub names: Vec<String>,
}

/// Whether a piece of a path leads nowhere: it is empty, or names the directory
/// itself.
pub open spec fn is_idle(piece: Seq<char>) -> bool {
    piece.len() == 0 || piece == "."@
}

/// The pieces that lead on, in order.
pub open spec fn leading(pieces: Seq<Seq<char>>) -> Seq<Seq<char>>
    decreases pieces.len(),
{
    if pieces.len() == 0 {
        Seq::<Seq<char>>::empty()
    } else if is_idle(pieces.last()) {
        leading(pieces.drop_last())
    } else {
        leading(pieces.drop_last()).push(pieces.last())
    }
}

/// The pieces of a path between its slashes.
pub open spec fn pieces_of(path: Seq<char>) -> Seq<Seq<char>> {
    text::split(path, '/')
}

/// Whether a path is one of the scratch area.
pub open spec fn names_scratch(path: Seq<char>) -> bool {
    pieces_of(path)[0] == "@scratch"@
}

/// Whether a path starts at the root of the file system.
pub open spec fn is_absolute(path: Seq<char>) -> bool {
    path.len() > 0 && path[0] == '/'
}

/// Whether a path leads upwards somewhere.
pub open spec fn leads_up(path: Seq<char>) -> bool {
    pieces_of(path).contains(".."@)
}

/// The pieces of a path that lead on from its directory.
pub open spec fn names_of(path: Seq<char>) -> Seq<Seq<char>> {
    if names_scratch(path) {
        leading(pieces_of(path).drop_first())
    } else {
        leading(pieces_of(path))
    }
}

/// Whether `out` is what a path means.
pub open spec fn located(out: Result<Place, ProtocolError>, path: Seq<char>) -> bool {
    match out {
        Ok(place) => {
            &&& !is_absolute(path)
            &&& !leads_up(path)
            &&& place.base == (if names_scratch(path) {
                Base::Scratch
            } else {
                Base::Root
            })
            &&& text::views(place.names@) == names_of(path)
        },
        Err(e) => {
            &&& is_absolute(path) || leads_up(path)
            &&& e.says(
                ErrorCode::PathOutsideRoot,
                (if is_absolute(path) {
                    "absolute path not allowed: "@
                } else {
                    "path escapes workspace root: "@
                }) + path,
            )
        },
    }
}

/// What a path means. Absolute paths and paths that lead upwards are refused;
/// paths under `@scratch` lie in the scratch area, all others in the workspace.
pub fn locate(path: &str) -> (out: Result<Place, ProtocolError>)
    ensures
        located(out, path@),
{
    let chars = text::chars_of(path);
    if chars.len() > 0 && chars[0] == '/' {
        let m = text::concat("absolute path not allowed: ", path);
        return Err(ProtocolError::new(ErrorCode::PathOutsideRoot, m.as_str()));
    }
    let raw = text::split_chars(chars.as_slice(), '/');
    let ghost pieces = pieces_of(path@);
    proof {
        text::split_join(path@, '/');
        assert(raw@.len() == pieces.len());
    }
    let mut strings: Vec<String> = Vec::new();
    let n: usize = raw.len();
    let mut i: usize = 0;
    while i < n
        invariant
            i <= n,
            n == raw@.len(),
            raw@.map_values(|p: Vec<char>| p@) == pieces,
            text::views(strings@) =~= pieces.take(i as int),
        decreases n - i,
    {
        let piece = text::string_of(raw[i].as_slice());
        let ghost before = text::views(strings@);
        strings.push(piece);
        proof {
            assert(raw@.map_values(|p: Vec<char>| p@)[i as int] == raw@[i as int]@);
            assert(text::views(strings@) =~= before.push(piece@));
            assert(pieces.take(i + 1) =~= pieces.take(i as int).push(pieces[i as int]));
        }
        i += 1;
    }
    assert(pieces.take(n as int) =~= pieces);
    let scratch = text::str_eq(strings[0].as_str(), "@scratch");
    assert(strings@[0]@ == pieces[0]);
    let from: usize = if scratch {
        1
    } else {
        0
    };
    let ghost rest = pieces.skip(from as int);
    let mut names: Vec<String> = Vec::new();
    let mut i: usize = from;
    proof {
        assert(rest.take(0) =~= Seq::<Seq<char>>::empty());
        assert(text::views(names@) =~= leading(rest.take(0)));
    }
    while i < n
        invariant
            from <= i <= n,
            n == strings@.len(),
            text::views(strings@) == pieces,
            rest == pieces.skip(from as int),
            from == 1 ==> pieces[0] == "@scratch"@,
            from <= 1,
            pieces == pieces_of(path@),
            !is_absolute(path@),
            forall|j: int| from <= j < i ==> #[trigger] pieces[j] != ".."@,
            text::views(names@) == leading(rest.take(i - from)),
        decreases n - i,
    {
        let piece = strings[i].as_str();
        proof {
            assert(strings@[i as int]@ == pieces[i as int]);
            assert(rest.take(i - from + 1).drop_last() =~= rest.take(i - from));
            assert(rest.take(i - from + 1).last() == pieces[i as int]);
        }
        if text::str_eq(piece, "..") {
            assert(pieces.contains(".."@));
            let m = text::concat("path escapes workspace root: ", path);
            return Err(ProtocolError::new(ErrorCode::PathOutsideRoot, m.as_str()));
        }
        if !piece.is_empty() && !text::str_eq(piece, ".") {
            let ghost before = text::views(names@);
            names.push(piece.to_owned());
            assert(text::views(names@) =~= before.push(pieces[i as int]));
        }
        i += 1;
    }
    proof {
        assert(rest.take(n - from) =~= rest);
        if scratch {
            assert(rest =~= pieces.drop_first());
            reveal_strlit("..");
            reveal_strlit("@scratch");
            assert(".."@.len() != "@scratch"@.len());
        } else {
            assert(rest =~= pieces);
        }
        assert forall|j: int| 0 <= j < pieces.len() implies #[trigger] pieces[j] != ".."@ by {
            if j >= from {
                assert(pieces[j] != ".."@);
            }
        }
    }
    Ok(
        Place {
            base: if scratch {
                Base::Scratch
            } else {
                Base::Root
            },
            names,
        },
    )
}

proof fn leading_are_filtered(pieces: Seq<Seq<char>>)
    ensures
        leading(pieces) == pieces.filter(|p: Seq<char>| p.len() > 0 && p != "."@),
    decreases pieces.len(),
{
    reveal(Seq::filter);
    if pieces.len() > 0 {
        leading_are_filtered(pieces.drop_last());
    }
}

proof fn names_are_all_kept(names: Seq<Seq<char>>)
    requires
        forall|i: int|
            0 <= i < names.len() ==> (#[trigger] names[i]).len() > 0 && names[i] != "."@,
    ensures
        names.filter(|p: Seq<char>| p.len() > 0 && p != "."@) == names,
    decreases names.len(),
{
    reveal(Seq::filter);
    if names.len() > 0 {
        assert forall|i: int| 0 <= i < names.drop_last().len() implies (
        #[trigger] names.drop_last()[i]).len() > 0 && names.drop_last()[i] != "."@ by {
            assert(names.drop_last()[i] == names[i]);
        }
        names_are_all_kept(names.drop_last());
        assert(names[names.len() - 1] == names.last());
        assert(names.drop_last().push(names.last()) =~= names);
    }
}

/// A path is refused exactly where it starts with a slash or one of its pieces is
/// `..`. Else it means its pieces in their order, without the empty ones and the
/// ones that are `.` alone; in the scratch area where the first
/// is `@scratch`, which is then no name, and in the workspace where it is not. So
/// a path that is made of names means these names.
pub proof fn paths_mean_their_names(out: Result<Place, ProtocolError>, pieces: Seq<Seq<char>>)
    requires
        pieces.len() > 0,
        forall|i: int| 0 <= i < pieces.len() ==> !(#[trigger] pieces[i]).contains('/'),
        located(out, text::join(pieces, seq!['/'])),
    ensures
        out is Err <==> (pieces.len() > 1 && pieces[0].len() == 0) || pieces.contains(".."@),
        out matches Err(e) ==> e.code == ErrorCode::PathOutsideRoot,
        out matches Ok(place) ==> {
            let names = text::views(place.names@);
            &&& place.base is Scratch <==> pieces[0] == "@scratch"@
            &&& pieces[0] != "@scratch"@ ==> names == pieces.filter(
                |p: Seq<char>| p.len() > 0 && p != "."@,
            )
            &&& pieces[0] == "@scratch"@ ==> names == pieces.skip(1).filter(
                |p: Seq<char>| p.len() > 0 && p != "."@,
            )
        },
        (forall|i: int|
            0 <= i < pieces.len() ==> (#[trigger] pieces[i]).len() > 0 && pieces[i] != "."@
                && pieces[i] != ".."@) ==> out is Ok && text::views(out->Ok_0.names@) == (
        if pieces[0] == "@scratch"@ {
            pieces.skip(1)
        } else {
            pieces
        }),
{
    let path = text::join(pieces, seq!['/']);
    text::join_split(pieces, '/');
    starts_with_slash(pieces);
    leading_are_filtered(pieces);
    leading_are_filtered(pieces.skip(1));
    assert(pieces.drop_first() =~= pieces.skip(1));
    if forall|i: int|
        0 <= i < pieces.len() ==> (#[trigger] pieces[i]).len() > 0 && pieces[i] != "."@
            && pieces[i] != ".."@ {
        assert(pieces[0].len() > 0);
        assert(!pieces.contains(".."@));
        names_are_all_kept(pieces);
        assert forall|i: int| 0 <= i < pieces.skip(1).len() implies (
        #[trigger] pieces.skip(1)[i]).len() > 0 && pieces.skip(1)[i] != "."@ by {
            assert(pieces.skip(1)[i] == pieces[i + 1]);
        }
        names_are_all_kept(pieces.skip(1));
    }
}

proof fn starts_with_slash(pieces: Seq<Seq<char>>)
    requires
        pieces.len() > 0,
        forall|i: int| 0 <= i < pieces.len() ==> !(#[trigger] pieces[i]).contains('/'),
    ensures
        is_absolute(text::join(pieces, seq!['/'])) <==> pieces.len() > 1 && pieces[0].len() == 0,
        pieces.len() > 1 ==> text::join(pieces, seq!['/']).len() > 0,
    decreases pieces.len(),
{
    if pieces.len() == 1 {
        if pieces[0].len() > 0 {
            assert(pieces[0].contains(pieces[0][0]));
        }
    } else {
        let front = pieces.drop_last();
        assert forall|i: int| 0 <= i < front.len() implies !(#[trigger] front[i]).contains(
            '/',
        ) by {
            assert(front[i] == pieces[i]);
        }
        starts_with_slash(front);
        assert(front[0] == pieces[0]);
        let before = text::join(front, seq!['/']);
        let path = text::join(pieces, seq!['/']);
        assert(path == before + seq!['/'] + pieces.last());
        if before.len() > 0 {
            assert(path[0] == before[0]);
        } else {
            assert(path[0] == '/');
            assert(front.len() == 1 && pieces[0].len() == 0);
        }
    }
}

/// A name that leads on from a directory to something in it: not empty, not the
/// directory or the one above it, and without a slash.
pub open spec fn is_name(name: Seq<char>) -> bool {
    &&& name.len() > 0
    &&& name != "."@
    &&& name != ".."@
    &&& !name.contains('/')
}

proof fn leading_are_names(pieces: Seq<Seq<char>>, all: Seq<Seq<char>>)
    requires
        forall|i: int| 0 <= i < pieces.len() ==> all.contains(#[trigger] pieces[i]),
        !all.contains(".."@),
        forall|i: int| 0 <= i < all.len() ==> !(#[trigger] all[i]).contains('/'),
    ensures
        forall|i: int| 0 <= i < leading(pieces).len() ==> is_name(#[trigger] leading(pieces)[i]),
    decreases pieces.len(),
{
    if pieces.len() > 0 {
        let front = pieces.drop_last();
        assert forall|i: int| 0 <= i < front.len() implies all.contains(#[trigger] front[i]) by {
            assert(front[i] == pieces[i]);
        }
        leading_are_names(front, all);
        let last = pieces[pieces.len() - 1];
        assert(all.contains(last));
        let k = choose|k: int| 0 <= k < all.len() && all[k] == last;
        assert(!all[k].contains('/'));
        assert forall|i: int| 0 <= i < leading(pieces).len() implies is_name(
            #[trigger] leading(pieces)[i],
        ) by {
            if i < leading(front).len() {
                assert(leading(pieces)[i] == leading(front)[i]);
            } else {
                assert(leading(pieces)[i] == last);
            }
        }
    }
}

/// `base` and `part` as one path.
pub open spec fn joined(base: Seq<char>, part: Seq<char>) -> Seq<char> {
    if base.len() == 0 || base.last() == '/' {
        base + part
    } else {
        base + "/"@ + part
    }
}

/// `base` and `part` as one path.
pub fn join_path(base: &str, part: &str) -> (out: String)
    ensures
        out@ == joined(base@, part@),
{
    let chars = text::chars_of(base);
    let n: usize = chars.len();
    if n == 0 || chars[n - 1] == '/' {
        text::concat(base, part)
    } else {
        text::concat3(base, "/", part)
    }
}

/// The path of `names` in a directory.
pub open spec fn path_in(dir: Seq<char>, names: Seq<Seq<char>>) -> Seq<char>
    decreases names.len(),
{
    if names.len() == 0 {
        dir
    } else {
        joined(path_in(dir, names.drop_last()), names.last())
    }
}

impl Workspace {
    /// The directory that a base stands for.
    pub open spec fn spec_dir(&self, base: Base) -> Seq<char> {
        match base {
            Base::Root => self.root@,
            Base::Scratch => self.scratch_root@,
        }
    }

    /// The directory that a base stands for.
    pub fn dir(&self, base: Base) -> (out: &str)
        ensures
            out@ == self.spec_dir(base),
    {
        match base {
            Base::Root => self.root.as_str(),
            Base::Scratch => self.scratch_root.as_str(),
        }
    }

    /// The path of a place in the file system, before links are followed.
    pub fn path_of(&self, place: &Place) -> (out: String)
        ensures
            out@ == path_in(self.spec_dir(place.base), text::views(place.names@)),
    {
        let mut out = self.dir(place.base).to_owned();
        let ghost names = text::views(place.names@);
        let n: usize = place.names.len();
        let mut i: usize = 0;
        while i < n
            invariant
                i <= n,
                n == place.names@.len(),
                names == text::views(place.names@),
                out@ == path_in(self.spec_dir(place.base), names.take(i as int)),
            decreases n - i,
        {
            proof {
                assert(names.take(i + 1).drop_last() =~= names.take(i as int));
                assert(names.take(i + 1).last() == place.names@[i as int]@);
            }
            out = join_path(out.as_str(), place.names[i].as_str());
            i += 1;
        }
        assert(names.take(n as int) =~= names);
        out
    }
}

/// Whether a path with its links followed lies in a directory: it is the
/// directory, or leads on from it.
pub open spec fn lies_in(dir: Seq<char>, path: Seq<char>) -> bool {
    let with_slash = if dir.len() > 0 && dir.last() == '/' {
        dir
    } else {
        dir.push('/')
    };
    path == dir || with_slash.is_prefix_of(path)
}

proof fn names_lead_on(dir: Seq<char>, names: Seq<Seq<char>>)
    requires
        dir.len() > 0,
        forall|i: int| 0 <= i < names.len() ==> is_name(#[trigger] names[i]),
    ensures
        lies_in(dir, path_in(dir, names)),
        path_in(dir, names).len() >= dir.len(),
    decreases names.len(),
{
    if names.len() > 0 {
        reveal_strlit("/");
        let front = names.drop_last();
        assert forall|i: int| 0 <= i < front.len() implies is_name(#[trigger] front[i]) by {
            assert(front[i] == names[i]);
        }
        names_lead_on(dir, front);
        let before = path_in(dir, front);
        let after = path_in(dir, names);
        let with_slash = if dir.last() == '/' {
            dir
        } else {
            dir.push('/')
        };
        assert(before.is_prefix_of(after));
        if before == dir {
            assert(with_slash.is_prefix_of(after));
        } else {
            assert(with_slash.is_prefix_of(before));
            assert(with_slash.is_prefix_of(after)) by {
                assert(after.take(with_slash.len() as int) =~= before.take(
                    with_slash.len() as int,
                ));
            }
        }
    }
}

/// What a path means never leaves its directory: each of its names leads on to
/// something in the directory before it, and the path that they make up lies in
/// the directory.
pub proof fn places_stay_inside(dir: Seq<char>, path: Seq<char>)
    requires
        dir.len() > 0,
        !is_absolute(path),
        !leads_up(path),
    ensures
        forall|i: int| 0 <= i < names_of(path).len() ==> is_name(#[trigger] names_of(path)[i]),
        lies_in(dir, path_in(dir, names_of(path))),
{
    let all = pieces_of(path);
    text::split_join(path, '/');
    assert forall|i: int| 0 <= i < all.len() implies all.contains(#[trigger] all[i]) by {}
    leading_are_names(all, all);
    let rest = all.drop_first();
    assert forall|i: int| 0 <= i < rest.len() implies all.contains(#[trigger] rest[i]) by {
        assert(rest[i] == all[i + 1]);
    }
    leading_are_names(rest, all);
    names_lead_on(dir, names_of(path));
}

/// The path of a place is its directory, and behind it its names, with one slash
/// before each.
pub proof fn places_have_plain_paths(dir: Seq<char>, names: Seq<Seq<char>>)
    requires
        dir.len() > 0,
        forall|i: int| 0 <= i < names.len() ==> is_name(#[trigger] names[i]),
    ensures
        names.len() == 0 ==> path_in(dir, names) == dir,
        names.len() > 0 && dir.last() != '/' ==> path_in(dir, names) == dir + seq!['/']
            + text::join(names, seq!['/']),
        names.len() > 0 && dir.last() == '/' ==> path_in(dir, names) == dir + text::join(
            names,
            seq!['/'],
        ),
    decreases names.len(),
{
    if names.len() > 0 {
        reveal_strlit("/");
        let front = names.drop_last();
        assert forall|i: int| 0 <= i < front.len() implies is_name(#[trigger] front[i]) by {
            assert(front[i] == names[i]);
        }
        places_have_plain_paths(dir, front);
        if front.len() == 0 {
            assert(names.last() == names[0]);
            assert(path_in(dir, names) =~= (if dir.last() == '/' {
                dir + names[0]
            } else {
                dir + seq!['/'] + names[0]
            }));
        } else {
            let before = path_in(dir, front);
            joined_names_end_in_one(front);
            assert(before.last() == text::join(front, seq!['/']).last());
            assert(path_in(dir, names) =~= before + seq!['/'] + names.last());
            if dir.last() == '/' {
                assert(path_in(dir, names) =~= dir + text::join(names, seq!['/']));
            } else {
                assert(path_in(dir, names) =~= dir + seq!['/'] + text::join(names, seq!['/']));
            }
        }
    }
}

proof fn joined_names_end_in_one(names: Seq<Seq<char>>)
    requires
        names.len() > 0,
        forall|i: int| 0 <= i < names.len() ==> is_name(#[trigger] names[i]),
    ensures
        text::join(names, seq!['/']).len() > 0,
        text::join(names, seq!['/']).last() != '/',
{
    let last = names[names.len() - 1];
    assert(is_name(last));
    assert(last.contains(last.last()));
    assert(text::join(names, seq!['/']).last() == last.last());
}

/// A path lies in a directory exactly where it is the directory, or the directory
/// with a slash and more behind it. One that only starts with the same letters
/// does not.
pub proof fn inside_is_the_directory_or_below(dir: Seq<char>, path: Seq<char>)
    requires
        dir.len() > 0,
        dir.last() != '/',
    ensures
        lies_in(dir, path) <==> path == dir || (path.len() > dir.len() && path.take(
            dir.len() as int,
        ) == dir && path[dir.len() as int] == '/'),
        forall|rest: Seq<char>| #[trigger] lies_in(dir, dir + seq!['/'] + rest),
        forall|rest: Seq<char>|
            rest.len() > 0 && rest[0] != '/' ==> !#[trigger] lies_in(dir, dir + rest),
{
    if path.len() > dir.len() && path.take(dir.len() as int) == dir && path[dir.len() as int]
        == '/' {
        assert(path.take(dir.len() as int + 1) =~= dir.push('/'));
        assert(dir.push('/').is_prefix_of(path));
    }
    if dir.push('/').is_prefix_of(path) {
        assert(path.take(dir.len() as int) =~= dir);
        assert(path[dir.len() as int] == dir.push('/')[dir.len() as int]);
    }
    assert forall|rest: Seq<char>| #[trigger] lies_in(dir, dir + seq!['/'] + rest) by {
        assert(dir.push('/').is_prefix_of(dir + seq!['/'] + rest));
    }
    assert forall|rest: Seq<char>|
        rest.len() > 0 && rest[0] != '/' implies !#[trigger] lies_in(dir, dir + rest) by {
        assert((dir + rest)[dir.len() as int] == rest[0]);
        if dir.push('/').is_prefix_of(dir + rest) {
            assert((dir + rest)[dir.len() as int] == dir.push('/')[dir.len() as int]);
        }
        assert((dir + rest).len() != dir.len());
    }
}

/// Whether a path with its links followed lies in a directory.
pub fn is_within(dir: &str, path: &str) -> (yes: bool)
    ensures
        yes == lies_in(dir@, path@),
{
    let d = text::chars_of(dir);
    let p = text::chars_of(path);
    let n: usize = d.len();
    if p.len() < n {
        assert(!dir@.is_prefix_of(path@));
        return false;
    }
    let mut i: usize = 0;
    while i < n
        invariant
            i <= n,
            n == d@.len(),
            n <= p@.len(),
            d@ == dir@,
            p@ == path@,
            forall|j: int| 0 <= j < i ==> d@[j] == p@[j],
        decreases n - i,
    {
        if d[i] != p[i] {
            assert(dir@[i as int] != path@[i as int]);
            assert(dir@.push('/')[i as int] == dir@[i as int]);
            assert(path@ != dir@);
            return false;
        }
        i += 1;
    }
    if p.len() == n {
        assert(path@ =~= dir@);
        return true;
    }
    if n > 0 && d[n - 1] == '/' {
        assert(dir@.is_prefix_of(path@));
        return true;
    }
    let inside = p[n] == '/';
    proof {
        if inside {
            assert(dir@.push('/').is_prefix_of(path@));
        } else {
            assert(dir@.push('/')[n as int] != path@[n as int]);
        }
    }
    inside
}

/// The error for a path that a link leads out of its directory.
pub fn escapes(path: &str) -> (e: ProtocolError)
    ensures
        e.says(ErrorCode::PathOutsideRoot, "path escapes workspace root: "@ + path@),
{
    let m = text::concat("path escapes workspace root: ", path);
    ProtocolError::new(ErrorCode::PathOutsideRoot, m.as_str())
}

/// Checks that what a request's path leads to with its links followed lies in the
/// directory that the path is resolved in, with its links followed too.
pub fn check_inside(path: &str, dir: &str, target: &str) -> (out: Result<(), ProtocolError>)
    ensures
        out is Ok <==> lies_in(dir@, target@),
        out matches Err(e) ==> e.says(
            ErrorCode::PathOutsideRoot,
            "path escapes workspace root: "@ + path@,
        ),
{
    if is_within(dir, target) {
        Ok(())
    } else {
        Err(escapes(path))
    }
}

/// The last name of a path, or what stands for it where there is none.
pub open spec fn root_name(name: Option<Seq<char>>) -> Seq<char> {
    match name {
        Some(n) => n,
        None => "root"@,
    }
}

/// The name of a workspace's state directory: the last name of its root, and the
/// start of the hash of its canonical path, so that every workspace has its own.
pub open spec fn state_leaf(name: Option<Seq<char>>, canonical: Seq<u8>) -> Seq<char> {
    root_name(name) + "-"@ + hash::short_hash(canonical)
}

/// The state directory of a workspace under a base directory. `name` is the last
/// name of the workspace's canonical path and `short_hash` the start of that
/// path's hash.
pub fn state_dir_named(base: &str, name: Option<&str>, short_hash: &str) -> (out: String)
    ensures
        out@ == joined(
            joined(base@, "state"@),
            root_name(crate::exec::str_view(name)) + "-"@ + short_hash@,
        ),
{
    let name = match name {
        Some(n) => n,
        None => "root",
    };
    let leaf = text::concat3(name, "-", short_hash);
    let states = join_path(base, "state");
    join_path(states.as_str(), leaf.as_str())
}

/// The state directory of a workspace under a base directory. `name` is the last
/// name of the workspace's canonical path and `canonical` are its bytes.
pub fn state_dir_under(base: &str, name: Option<&str>, canonical: &[u8]) -> (out: String)
    ensures
        out@ == joined(
            joined(base@, "state"@),
            state_leaf(crate::exec::str_view(name), canonical@),
        ),
{
    state_dir_named(base, name, hash::hash12(canonical).as_str())
}

/// The state directory of a workspace in a home directory.
pub fn default_state_dir(home: &str, name: Option<&str>, canonical: &[u8]) -> (out: String)
    ensures
        out@ == joined(
            joined(joined(home@, ".agent-remote"@), "state"@),
            state_leaf(crate::exec::str_view(name), canonical@),
        ),
{
    let base = join_path(home, ".agent-remote");
    state_dir_under(base.as_str(), name, canonical)
}

/// A path that is made of names is resolved to these names: a piece leads nowhere
/// exactly where it is empty or `.`, whatever else it starts with.
pub proof fn names_make_up_their_path(names: Seq<Seq<char>>)
    requires
        names.len() > 0,
        names[0] != "@scratch"@,
        forall|i: int|
            0 <= i < names.len() ==> (#[trigger] names[i]).len() > 0 && names[i] != "."@
                && names[i] != ".."@ && !names[i].contains('/'),
    ensures
        names_of(text::join(names, seq!['/'])) == names,
        !is_absolute(text::join(names, seq!['/'])),
        !leads_up(text::join(names, seq!['/'])),
        !names_scratch(text::join(names, seq!['/'])),
        forall|piece: Seq<char>| #[trigger] is_idle(piece) <==> piece.len() == 0 || piece == "."@,
{
    assert forall|i: int| 0 <= i < names.len() implies !(#[trigger] names[i]).contains('/') by {}
    text::join_split(names, '/');
    starts_with_slash(names);
    assert(names[0].len() > 0);
    leading_are_filtered(names);
    names_are_all_kept(names);
    assert(!names.contains(".."@));
}

/// In a directory whose path ends with a slash, such as the root of the file system,
/// lies every path that starts with it.
pub proof fn inside_the_root_is_what_starts_with_it(dir: Seq<char>, path: Seq<char>)
    requires
        dir.len() > 0,
        dir.last() == '/',
    ensures
        lies_in(dir, path) <==> dir.is_prefix_of(path),
{
    if path == dir {
        assert(dir.is_prefix_of(path));
    }
}

/// Paths are joined with one slash between them, and a workspace's state directory is
/// named by the last name of its root and the first twelve digits of the SHA-256 digest
/// of its canonical path.
pub proof fn state_directories_are_named_by_their_root(
    base: Seq<char>,
    name: Seq<char>,
    canonical: Seq<u8>,
)
    requires
        base.len() > 0,
        base.last() != '/',
        hash::sha256(canonical).len() == 32,
    ensures
        joined(joined(base, "state"@), state_leaf(Some(name), canonical)) == base + "/state/"@
            + name + "-"@ + hash::hex(hash::sha256(canonical)).take(12),
        joined(joined(base, "state"@), state_leaf(None, canonical)) == base + "/state/root-"@
            + hash::hex(hash::sha256(canonical)).take(12),
        joined(base + "/"@, name) == base + "/"@ + name,
        joined(base, name) == base + "/"@ + name,
        joined(Seq::empty(), name) == name,
{
    hash::short_hashes_start_the_digest(canonical);
    reveal_strlit("state");
    reveal_strlit("/");
    reveal_strlit("root");
    reveal_strlit("-");
    reveal_strlit("/state/");
    reveal_strlit("/state/root-");
    let digits = hash::hex(hash::sha256(canonical)).take(12);
    assert(joined(base, "state"@).last() == 'e');
    assert(joined(joined(base, "state"@), state_leaf(Some(name), canonical)) =~= base + "/state/"@
        + name + "-"@ + digits);
    assert(joined(joined(base, "state"@), state_leaf(None, canonical)) =~= base + "/state/root-"@
        + digits);
    assert(joined(base + "/"@, name) =~= base + "/"@ + name);
    assert(joined(Seq::empty(), name) =~= name);
}

}
