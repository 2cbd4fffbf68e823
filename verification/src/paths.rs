//! Paths as bytes: when two of them are the same, which directories are
//! searched for commands, and which for desktop files.

use vstd::prelude::*;
use vstd::utf8::encode_utf8;

use crate::bytes::{byte_strings, bytes_of, push_bytes, same_bytes, split_bytes};
use crate::scan::{
    fields, fields_of_both_sides, fields_survive_joining, joined, lemma_position,
    lemma_position_is, position, slices, split_on,
};

verus! {

/// The directories that hold the commands of most systems.
pub const COMMON_COMMAND_DIRS: [&'static str; 4] = [
    "/run/current-system/sw/bin",
    "/usr/local/bin",
    "/usr/bin",
    "/bin",
];

/// Where desktop files are looked for in a home directory.
pub const HOME_APPLICATIONS: &'static str = ".local/share/applications";

/// Where those of the user's Flatpak applications are.
pub const HOME_FLATPAK_APPLICATIONS: &'static str =
    ".local/share/flatpak/exports/share/applications";

/// Where those of the system's Flatpak applications are.
pub const SYSTEM_FLATPAK_APPLICATIONS: &'static str = "/var/lib/flatpak/exports/share/applications";

/// The data directories of a system that names none.
pub const DEFAULT_DATA_DIRS: &'static str = "/usr/local/share:/usr/share";

// ---------------------------------------------------------------------------
// Paths.
// ---------------------------------------------------------------------------

/// What makes a path: whether it starts at the root, and its parts.
pub struct PathShape {
    pub rooted: bool,
    pub parts: Seq<Seq<u8>>,
}

/// The parts of a path that count, given its pieces between slashes. Empty
/// pieces do not, and a single dot only at the front of a relative path.
pub open spec fn counted_parts(pieces: Seq<Seq<u8>>, dot_counts: bool) -> Seq<Seq<u8>>
    decreases pieces.len(),
{
    if pieces.len() == 0 {
        seq![]
    } else {
        let rest = counted_parts(pieces.skip(1), false);
        if pieces[0].len() == 0 || (pieces[0] == seq![0x2eu8] && !dot_counts) {
            rest
        } else {
            seq![pieces[0]] + rest
        }
    }
}

/// A path starts at the root.
pub open spec fn rooted(path: Seq<u8>) -> bool {
    path.len() > 0 && path[0] == 0x2fu8
}

/// The shape of a path.
pub open spec fn shape(path: Seq<u8>) -> PathShape {
    PathShape {
        rooted: rooted(path),
        parts: counted_parts(fields(path, 0x2fu8), !rooted(path)),
    }
}

/// Two paths are the same path, however they are written.
pub open spec fn same_path(a: Seq<u8>, b: Seq<u8>) -> bool {
    shape(a) == shape(b)
}

/// One of the paths is the same as `path`.
pub open spec fn among(paths: Seq<Seq<u8>>, path: Seq<u8>) -> bool {
    exists|i: int| 0 <= i < paths.len() && #[trigger] same_path(paths[i], path)
}

/// A relative path below a directory.
pub open spec fn path_in(dir: Seq<u8>, leaf: Seq<u8>) -> Seq<u8> {
    if dir.len() == 0 || dir.last() == 0x2fu8 {
        dir + leaf
    } else {
        dir + seq![0x2fu8] + leaf
    }
}

/// The bytes of an optional slice.
pub open spec fn optional_bytes(s: Option<&[u8]>) -> Option<Seq<u8>> {
    match s {
        Some(bytes) => Some(bytes@),
        None => None,
    }
}

/// The path that a path means in the given working directory. A relative path
/// stays as it is where the working directory is not known.
pub open spec fn resolved(path: Seq<u8>, working_dir: Option<Seq<u8>>) -> Seq<u8> {
    match working_dir {
        Some(dir) => if rooted(path) {
            path
        } else {
            path_in(dir, path)
        },
        None => path,
    }
}

/// In an absolute working directory every path means an absolute one, and what
/// is absolute stays as it is everywhere.
pub proof fn resolved_paths_are_absolute(path: Seq<u8>, working_dir: Option<Seq<u8>>)
    ensures
        working_dir is Some && rooted(working_dir->0) ==> rooted(resolved(path, working_dir)),
        rooted(path) ==> resolved(path, working_dir) == path,
{
}

/// A path starts at the root exactly where its first byte is a slash.
pub proof fn rooted_paths_start_with_a_slash(first: u8, rest: Seq<u8>)
    ensures
        rooted(seq![first] + rest) <==> first == 0x2fu8,
        !rooted(seq![]),
{
    assert((seq![first] + rest)[0] == first);
}

/// What is below a directory follows its path after one slash, which is not added
/// where the directory ends in one.
pub proof fn one_slash_stands_before_a_leaf(dir: Seq<u8>, leaf: Seq<u8>)
    ensures
        dir.len() > 0 && dir.last() != 0x2fu8 ==> path_in(dir, leaf) == dir + seq![0x2fu8] + leaf,
        path_in(dir + seq![0x2fu8], leaf) == dir + seq![0x2fu8] + leaf,
        path_in(seq![], leaf) == leaf,
        dir.len() > 0 && dir.last() != 0x2fu8 && !rooted(leaf) ==> resolved(leaf, Some(dir)) == dir
            + seq![0x2fu8] + leaf,
        resolved(leaf, None) == leaf,
{
    assert(seq![] + leaf =~= leaf);
}

/// The path that a path means in the given working directory.
pub fn resolve(path: &[u8], working_dir: Option<&[u8]>) -> (r: Vec<u8>)
    ensures
        r@ == resolved(path@, optional_bytes(working_dir)),
{
    match working_dir {
        Some(dir) => {
            if path.len() > 0 && path[0] == 0x2f {
                return bytes_of(path);
            }
            let n: usize = dir.len();
            let mut out = bytes_of(dir);
            if n > 0 && dir[n - 1] != 0x2f {
                out.push(0x2f);
            }
            push_bytes(&mut out, path);
            assert(out@ =~= path_in(dir@, path@));
            out
        },
        None => bytes_of(path),
    }
}

/// The parts of a path that count.
fn parts_of(path: &[u8]) -> (r: Vec<Vec<u8>>)
    ensures
        byte_strings(r@) == shape(path@).parts,
{
    let starts_at_root = path.len() > 0 && path[0] == 0x2f;
    let mut pieces = split_bytes(path, 0x2f);
    let ghost all = byte_strings(pieces@);
    let mut out: Vec<Vec<u8>> = Vec::new();
    let mut dot_counts = !starts_at_root;
    assert(byte_strings(out@) + counted_parts(all, dot_counts) =~= counted_parts(all, dot_counts));
    while pieces.len() > 0
        invariant
            byte_strings(out@) + counted_parts(byte_strings(pieces@), dot_counts) == shape(
                path@,
            ).parts,
        decreases pieces.len(),
    {
        let ghost left = byte_strings(pieces@);
        let ghost before = out@;
        let piece = pieces.remove(0);
        assert(byte_strings(pieces@) =~= left.skip(1));
        assert(left[0] == piece@);
        assert(piece@ =~= seq![0x2eu8] <==> piece@.len() == 1 && piece@[0] == 0x2eu8);
        let lone_dot = piece.len() == 1 && piece[0] == 0x2e;
        if piece.len() > 0 && (dot_counts || !lone_dot) {
            out.push(piece);
            assert(byte_strings(out@) =~= byte_strings(before).push(left[0]));
        }
        assert(byte_strings(out@) + counted_parts(byte_strings(pieces@), false) =~= byte_strings(
            before,
        ) + counted_parts(left, dot_counts));
        dot_counts = false;
    }
    assert(byte_strings(out@) =~= shape(path@).parts);
    out
}

proof fn lemma_counted_of_both(a: Seq<Seq<u8>>, b: Seq<Seq<u8>>, dot_counts: bool)
    ensures
        counted_parts(a + b, dot_counts) == counted_parts(a, dot_counts) + counted_parts(
            b,
            dot_counts && a.len() == 0,
        ),
    decreases a.len(),
{
    let whole = a + b;
    if a.len() == 0 {
        assert(whole =~= b);
        assert(counted_parts(a, dot_counts) =~= seq![]);
        assert(counted_parts(b, dot_counts) =~= seq![] + counted_parts(b, dot_counts));
    } else {
        let rest = a.skip(1);
        lemma_counted_of_both(rest, b, false);
        assert(whole.skip(1) =~= rest + b);
        assert(whole[0] == a[0]);
        let back = counted_parts(b, false);
        assert(seq![a[0]] + (counted_parts(rest, false) + back) =~= seq![a[0]] + counted_parts(
            rest,
            false,
        ) + back);
    }
}

proof fn lemma_shape_below(dir: Seq<u8>, rest: Seq<u8>)
    requires
        dir.len() > 0,
    ensures
        shape(dir + seq![0x2fu8] + rest).rooted == shape(dir).rooted,
        shape(dir + seq![0x2fu8] + rest).parts == shape(dir).parts + counted_parts(
            fields(rest, 0x2fu8),
            false,
        ),
{
    let whole = dir + seq![0x2fu8] + rest;
    assert(whole[0] == dir[0]);
    fields_of_both_sides(dir, 0x2fu8, rest);
    lemma_position(dir, 0x2fu8);
    assert(fields(dir, 0x2fu8).len() > 0);
    lemma_counted_of_both(fields(dir, 0x2fu8), fields(rest, 0x2fu8), !rooted(dir));
}

proof fn lemma_single_part(part: Seq<u8>)
    requires
        !part.contains(0x2fu8),
    ensures
        fields(part, 0x2fu8) == seq![part],
        part.len() > 0 && part != seq![0x2eu8] ==> counted_parts(fields(part, 0x2fu8), false)
            == seq![part],
        part.len() == 0 || part == seq![0x2eu8] ==> counted_parts(fields(part, 0x2fu8), false)
            == Seq::<Seq<u8>>::empty(),
{
    assert forall|j: int| 0 <= j < part.len() implies part[j] != 0x2fu8 by {
        assert(part.contains(part[j]));
    }
    lemma_position_is(part, 0x2fu8, part.len() as int);
    assert(fields(part, 0x2fu8) =~= seq![part]);
    reveal_with_fuel(counted_parts, 2);
    assert(seq![part].skip(1) =~= seq![]);
    assert(seq![part] + Seq::<Seq<u8>>::empty() =~= seq![part]);
}

/// A path stays the same path with a slash at its end, with a slash doubled, and
/// with a dot between two slashes.
pub proof fn slashes_and_dots_change_nothing(dir: Seq<u8>, rest: Seq<u8>)
    requires
        dir.len() > 0,
    ensures
        same_path(dir + seq![0x2fu8], dir),
        same_path(dir + seq![0x2fu8, 0x2fu8] + rest, dir + seq![0x2fu8] + rest),
        same_path(dir + seq![0x2fu8, 0x2eu8, 0x2fu8] + rest, dir + seq![0x2fu8] + rest),
{
    let none: Seq<u8> = seq![];
    let dot = seq![0x2eu8];
    lemma_single_part(none);
    lemma_single_part(dot);
    lemma_shape_below(dir, none);
    assert(dir + seq![0x2fu8] + none =~= dir + seq![0x2fu8]);
    assert(shape(dir).parts + Seq::<Seq<u8>>::empty() =~= shape(dir).parts);
    lemma_shape_below(dir, rest);
    lemma_shape_below(dir, none + seq![0x2fu8] + rest);
    lemma_shape_below(dir, dot + seq![0x2fu8] + rest);
    fields_of_both_sides(none, 0x2fu8, rest);
    fields_of_both_sides(dot, 0x2fu8, rest);
    let back = fields(rest, 0x2fu8);
    lemma_counted_of_both(fields(none, 0x2fu8), back, false);
    lemma_counted_of_both(fields(dot, 0x2fu8), back, false);
    assert(Seq::<Seq<u8>>::empty() + counted_parts(back, false) =~= counted_parts(back, false));
    assert(dir + seq![0x2fu8] + (none + seq![0x2fu8] + rest) =~= dir + seq![0x2fu8, 0x2fu8] + rest);
    assert(dir + seq![0x2fu8] + (dot + seq![0x2fu8] + rest) =~= dir + seq![0x2fu8, 0x2eu8, 0x2fu8]
        + rest);
}

/// Two entries of one directory are different paths where their names differ, and
/// neither is the directory itself; and a path from the root is never the same as
/// a relative one.
pub proof fn names_tell_paths_apart(dir: Seq<u8>, a: Seq<u8>, b: Seq<u8>, other: Seq<u8>)
    requires
        dir.len() > 0,
        a.len() > 0,
        b.len() > 0,
        !a.contains(0x2fu8),
        !b.contains(0x2fu8),
        a != seq![0x2eu8],
        b != seq![0x2eu8],
    ensures
        same_path(dir + seq![0x2fu8] + a, dir + seq![0x2fu8] + b) <==> a == b,
        !same_path(dir + seq![0x2fu8] + a, dir),
        rooted(dir) != rooted(other) ==> !same_path(dir, other),
{
    lemma_single_part(a);
    lemma_single_part(b);
    lemma_shape_below(dir, a);
    lemma_shape_below(dir, b);
    let first = shape(dir).parts + seq![a];
    let second = shape(dir).parts + seq![b];
    assert(first.last() == a);
    assert(second.last() == b);
    assert(first.len() == shape(dir).parts.len() + 1);
}

/// Whether two paths are the same path.
pub fn is_same_path(a: &[u8], b: &[u8]) -> (r: bool)
    ensures
        r == same_path(a@, b@),
{
    let a_rooted = a.len() > 0 && a[0] == 0x2f;
    let b_rooted = b.len() > 0 && b[0] == 0x2f;
    let p = parts_of(a);
    let q = parts_of(b);
    let n: usize = p.len();
    if a_rooted != b_rooted {
        return false;
    }
    if n != q.len() {
        assert(shape(a@).parts.len() != shape(b@).parts.len());
        return false;
    }
    let mut i: usize = 0;
    while i < n
        invariant
            i <= n,
            n == p@.len(),
            n == q@.len(),
            byte_strings(p@) == shape(a@).parts,
            byte_strings(q@) == shape(b@).parts,
            forall|j: int| 0 <= j < i ==> (#[trigger] p@[j])@ == q@[j]@,
        decreases n - i,
    {
        if !same_bytes(p[i].as_slice(), q[i].as_slice()) {
            assert(byte_strings(p@)[i as int] != byte_strings(q@)[i as int]);
            return false;
        }
        i += 1;
    }
    assert(byte_strings(p@) =~= byte_strings(q@));
    true
}

/// Whether one of the paths is the same as `path`.
fn is_among(paths: &Vec<Vec<u8>>, path: &[u8]) -> (r: bool)
    ensures
        r == among(byte_strings(paths@), path@),
{
    let n: usize = paths.len();
    let mut i: usize = 0;
    while i < n
        invariant
            i <= n,
            n == paths@.len(),
            forall|j: int| 0 <= j < i ==> !(#[trigger] same_path(byte_strings(paths@)[j], path@)),
        decreases n - i,
    {
        if is_same_path(paths[i].as_slice(), path) {
            assert(same_path(byte_strings(paths@)[i as int], path@));
            return true;
        }
        i += 1;
    }
    false
}

/// A relative path below a directory.
pub fn join_path(dir: &[u8], leaf: &str) -> (r: Vec<u8>)
    ensures
        r@ == path_in(dir@, encode_utf8(leaf@)),
{
    let n: usize = dir.len();
    let mut out = bytes_of(dir);
    if n > 0 && dir[n - 1] != 0x2f {
        out.push(0x2f);
    }
    push_bytes(&mut out, leaf.as_bytes());
    assert(out@ =~= path_in(dir@, encode_utf8(leaf@)));
    out
}

// ---------------------------------------------------------------------------
// The search path for commands.
// ---------------------------------------------------------------------------

/// One of the common directories, as a path.
pub open spec fn common_dir(i: int) -> Seq<u8> {
    encode_utf8(COMMON_COMMAND_DIRS@[i]@)
}

/// The entries of a search path.
pub open spec fn path_entries(path: Option<Seq<u8>>) -> Seq<Seq<u8>> {
    match path {
        Some(bytes) => fields(bytes, 0x3au8),
        None => seq![],
    }
}

/// The entries with those of the first `n` common directories that are present
/// and missing among them added at the end.
pub open spec fn with_common_dirs(
    entries: Seq<Seq<u8>>,
    present: Seq<bool>,
    n: int,
) -> Seq<Seq<u8>>
    decreases n,
{
    if n <= 0 {
        entries
    } else {
        let before = with_common_dirs(entries, present, n - 1);
        if present[n - 1] && !among(before, common_dir(n - 1)) {
            before.push(common_dir(n - 1))
        } else {
            before
        }
    }
}

/// The search path that a list of entries makes.
pub open spec fn search_path(entries: Seq<Seq<u8>>) -> Seq<u8> {
    joined(entries, seq![0x3au8])
}

/// What was in the search path stays there, in its place; and every common
/// directory that is present is in it.
pub proof fn search_path_grows(entries: Seq<Seq<u8>>, present: Seq<bool>, n: int)
    requires
        0 <= n <= 4,
        present.len() == 4,
    ensures
        entries.len() <= with_common_dirs(entries, present, n).len(),
        with_common_dirs(entries, present, n).take(entries.len() as int) == entries,
        forall|i: int|
            0 <= i < n && present[i] ==> among(
                with_common_dirs(entries, present, n),
                #[trigger] common_dir(i),
            ),
    decreases n,
{
    if n <= 0 {
        assert(entries.take(entries.len() as int) =~= entries);
    } else {
        search_path_grows(entries, present, n - 1);
        let before = with_common_dirs(entries, present, n - 1);
        let after = with_common_dirs(entries, present, n);
        assert(after.take(entries.len() as int) =~= before.take(entries.len() as int));
        assert forall|i: int| 0 <= i < n && present[i] implies among(
            after,
            #[trigger] common_dir(i),
        ) by {
            if i < n - 1 {
                assert(after.take(before.len() as int) =~= before);
                lemma_among_grows(before, after, common_dir(i));
            } else if after.len() > before.len() {
                assert(same_path(after[before.len() as int], common_dir(i)));
            }
        }
    }
}

proof fn lemma_among_grows(before: Seq<Seq<u8>>, after: Seq<Seq<u8>>, path: Seq<u8>)
    requires
        among(before, path),
        before.len() <= after.len(),
        after.take(before.len() as int) == before,
    ensures
        among(after, path),
{
    let i = choose|i: int| 0 <= i < before.len() && #[trigger] same_path(before[i], path);
    assert(after.take(before.len() as int)[i] == after[i]);
    assert(same_path(after[i], path));
}

/// A search path that has been completed stays as it is when it is completed
/// again.
pub proof fn completing_twice_changes_nothing(entries: Seq<Seq<u8>>, present: Seq<bool>, n: int)
    requires
        0 <= n <= 4,
        present.len() == 4,
    ensures
        with_common_dirs(with_common_dirs(entries, present, 4), present, n) == with_common_dirs(
            entries,
            present,
            4,
        ),
    decreases n,
{
    if n > 0 {
        completing_twice_changes_nothing(entries, present, n - 1);
        search_path_grows(entries, present, 4);
        assert(present[n - 1] ==> among(
            with_common_dirs(entries, present, 4),
            common_dir(n - 1),
        ));
    }
}

/// Splitting a search path gives back the entries that it was made of.
pub proof fn entries_survive_joining(entries: Seq<Seq<u8>>)
    requires
        entries.len() > 0,
        forall|i: int| 0 <= i < entries.len() ==> !(#[trigger] entries[i]).contains(0x3au8),
    ensures
        path_entries(Some(search_path(entries))) == entries,
    decreases entries.len(),
{
    let sep = seq![0x3au8];
    let last = entries.last();
    assert(!entries[entries.len() - 1].contains(0x3au8));
    if entries.len() == 1 {
        lemma_position(last, 0x3au8);
        lemma_position_is(last, 0x3au8, last.len() as int);
        assert(fields(last, 0x3au8) =~= entries);
    } else {
        let front = entries.drop_last();
        assert forall|i: int| 0 <= i < front.len() implies !(#[trigger] front[i]).contains(
            0x3au8,
        ) by {
            assert(front[i] == entries[i]);
        }
        entries_survive_joining(front);
        lemma_fields_of_appended(search_path(front), last);
        assert(search_path(entries) == search_path(front) + sep + last);
        assert(front.push(last) =~= entries);
    }
}

proof fn lemma_fields_of_appended(s: Seq<u8>, last: Seq<u8>)
    requires
        !last.contains(0x3au8),
    ensures
        fields(s + seq![0x3au8] + last, 0x3au8) == fields(s, 0x3au8).push(last),
    decreases s.len(),
{
    let whole = s + seq![0x3au8] + last;
    let i = position(s, 0x3au8);
    lemma_position(s, 0x3au8);
    assert(forall|j: int| 0 <= j < s.len() ==> whole[j] == s[j]);
    assert(whole[s.len() as int] == 0x3au8);
    lemma_position_is(whole, 0x3au8, i);
    if i == s.len() {
        assert(whole.take(i) =~= s);
        assert(whole.skip(i + 1) =~= last);
        lemma_position_is(last, 0x3au8, last.len() as int);
        reveal_with_fuel(fields, 2);
        assert(fields(whole, 0x3au8) =~= seq![s, last]);
    } else {
        lemma_fields_of_appended(s.skip(i + 1), last);
        assert(whole.take(i) =~= s.take(i));
        assert(whole.skip(i + 1) =~= s.skip(i + 1) + seq![0x3au8] + last);
        assert(fields(whole, 0x3au8) =~= fields(s, 0x3au8).push(last));
    }
}

/// The search path with the common directories that are present added where
/// they are missing; `present` tells for each of `COMMON_COMMAND_DIRS` whether
/// it exists.
pub fn hydrate_common_command_path(path: Option<&[u8]>, present: &[bool; 4]) -> (r: Vec<u8>)
    ensures
        r@ == search_path(
            with_common_dirs(
                path_entries(
                    match path {
                        Some(bytes) => Some(bytes@),
                        None => None,
                    },
                ),
                present@,
                4,
            ),
        ),
{
    let mut entries: Vec<Vec<u8>> = match path {
        Some(bytes) => split_bytes(bytes, 0x3a),
        None => Vec::new(),
    };
    let ghost start = byte_strings(entries@);
    assert(start =~= path_entries(
        match path {
            Some(bytes) => Some(bytes@),
            None => None,
        },
    ));
    let mut i: usize = 0;
    while i < 4
        invariant
            i <= 4,
            byte_strings(entries@) == with_common_dirs(start, present@, i as int),
        decreases 4 - i,
    {
        let ghost before = entries@;
        let dir = COMMON_COMMAND_DIRS[i].as_bytes();
        if present[i] && !is_among(&entries, dir) {
            entries.push(bytes_of(dir));
            assert(byte_strings(entries@) =~= byte_strings(before).push(common_dir(i as int)));
        }
        i += 1;
    }
    let n: usize = entries.len();
    let mut out: Vec<u8> = Vec::new();
    let mut j: usize = 0;
    let ghost all = byte_strings(entries@);
    assert(out@ =~= search_path(all.take(0)));
    while j < n
        invariant
            j <= n,
            n == entries@.len(),
            all == byte_strings(entries@),
            out@ == search_path(all.take(j as int)),
        decreases n - j,
    {
        if j > 0 {
            out.push(0x3a);
        }
        push_bytes(&mut out, entries[j].as_slice());
        proof {
            assert(all.take(j + 1).drop_last() =~= all.take(j as int));
            assert(all.take(j + 1).last() == all[j as int]);
            if j == 0 {
                assert(out@ =~= all[0]);
            } else {
                assert(out@ =~= search_path(all.take(j as int)) + seq![0x3au8] + all[j as int]);
            }
        }
        j += 1;
    }
    assert(all.take(n as int) =~= all);
    out
}

// ---------------------------------------------------------------------------
// The directories with desktop files.
// ---------------------------------------------------------------------------

/// The paths with `path` added at the end, unless it is among them.
pub open spec fn with_path(paths: Seq<Seq<u8>>, path: Seq<u8>) -> Seq<Seq<u8>> {
    if among(paths, path) {
        paths
    } else {
        paths.push(path)
    }
}

/// The directories of a home directory.
pub open spec fn home_dirs(home: Option<Seq<u8>>) -> Seq<Seq<u8>> {
    match home {
        Some(dir) => seq![
            path_in(dir, encode_utf8(HOME_APPLICATIONS@)),
            path_in(dir, encode_utf8(HOME_FLATPAK_APPLICATIONS@)),
        ],
        None => seq![],
    }
}

/// The directory with the desktop files of a data directory.
pub open spec fn applications_in(data_dir: Seq<char>) -> Seq<u8> {
    path_in(encode_utf8(data_dir), encode_utf8("applications"@))
}

/// The paths with the directories of the given data directories added.
pub open spec fn with_data_dirs(paths: Seq<Seq<u8>>, data_dirs: Seq<Seq<char>>) -> Seq<Seq<u8>>
    decreases data_dirs.len(),
{
    if data_dirs.len() == 0 {
        paths
    } else {
        let before = with_data_dirs(paths, data_dirs.drop_last());
        if data_dirs.last().len() == 0 {
            before
        } else {
            with_path(before, applications_in(data_dirs.last()))
        }
    }
}

/// The directories that are searched for desktop files, in their order.
pub open spec fn search_dirs(home: Option<Seq<u8>>, data_dirs: Seq<char>) -> Seq<Seq<u8>> {
    with_path(
        with_data_dirs(home_dirs(home), fields(data_dirs, ':')),
        encode_utf8(SYSTEM_FLATPAK_APPLICATIONS@),
    )
}

/// No path from index `k` on is the same as an earlier one.
pub open spec fn new_from(paths: Seq<Seq<u8>>, k: int) -> bool {
    forall|i: int, j: int|
        0 <= i < j < paths.len() && k <= j ==> !(#[trigger] same_path(paths[i], paths[j]))
}

proof fn lemma_with_path_is_new(paths: Seq<Seq<u8>>, path: Seq<u8>, k: int)
    requires
        new_from(paths, k),
    ensures
        new_from(with_path(paths, path), k),
{
    let after = with_path(paths, path);
    assert forall|i: int, j: int| 0 <= i < j < after.len() && k <= j implies !(
    #[trigger] same_path(after[i], after[j])) by {
        if j < paths.len() {
            assert(!same_path(paths[i], paths[j]));
        } else {
            assert(!same_path(paths[i], path));
        }
    }
}

proof fn lemma_data_dirs_are_new(paths: Seq<Seq<u8>>, data_dirs: Seq<Seq<char>>, k: int)
    requires
        new_from(paths, k),
    ensures
        new_from(with_data_dirs(paths, data_dirs), k),
        paths.len() <= with_data_dirs(paths, data_dirs).len(),
        with_data_dirs(paths, data_dirs).take(paths.len() as int) == paths,
    decreases data_dirs.len(),
{
    if data_dirs.len() == 0 {
        assert(paths.take(paths.len() as int) =~= paths);
    } else {
        lemma_data_dirs_are_new(paths, data_dirs.drop_last(), k);
        let before = with_data_dirs(paths, data_dirs.drop_last());
        lemma_with_path_is_new(before, applications_in(data_dirs.last()), k);
        let after = with_data_dirs(paths, data_dirs);
        assert(after.take(paths.len() as int) =~= before.take(paths.len() as int));
    }
}

/// The user's own directories are searched first, and no directory after them
/// is searched twice.
pub proof fn directories_are_searched_once(home: Option<Seq<u8>>, data_dirs: Seq<char>)
    ensures
        home_dirs(home).len() <= search_dirs(home, data_dirs).len(),
        search_dirs(home, data_dirs).take(home_dirs(home).len() as int) == home_dirs(home),
        new_from(search_dirs(home, data_dirs), home_dirs(home).len() as int),
{
    let k = home_dirs(home).len() as int;
    lemma_data_dirs_are_new(home_dirs(home), fields(data_dirs, ':'), k);
    let before = with_data_dirs(home_dirs(home), fields(data_dirs, ':'));
    lemma_with_path_is_new(before, encode_utf8(SYSTEM_FLATPAK_APPLICATIONS@), k);
    assert(search_dirs(home, data_dirs).take(k) =~= before.take(k));
}

proof fn lemma_data_dirs_without_repetition(paths: Seq<Seq<u8>>, dirs: Seq<Seq<char>>)
    requires
        forall|i: int| 0 <= i < dirs.len() ==> (#[trigger] dirs[i]).len() > 0,
        new_from(paths + Seq::new(dirs.len(), |i: int| applications_in(dirs[i])), 0),
    ensures
        with_data_dirs(paths, dirs) == paths + Seq::new(
            dirs.len(),
            |i: int| applications_in(dirs[i]),
        ),
    decreases dirs.len(),
{
    let added = Seq::new(dirs.len(), |i: int| applications_in(dirs[i]));
    let all = paths + added;
    if dirs.len() == 0 {
        assert(all =~= paths);
    } else {
        let front = dirs.drop_last();
        let n = dirs.len() - 1;
        let before = paths + Seq::new(front.len(), |i: int| applications_in(front[i]));
        assert(before =~= all.drop_last());
        assert forall|i: int| 0 <= i < front.len() implies (#[trigger] front[i]).len() > 0 by {
            assert(dirs[i].len() > 0);
        }
        assert forall|i: int, j: int| 0 <= i < j < before.len() && 0 <= j implies !(
        #[trigger] same_path(before[i], before[j])) by {
            assert(!same_path(all[i], all[j]));
        }
        lemma_data_dirs_without_repetition(paths, front);
        assert(dirs[n].len() > 0);
        let last = applications_in(dirs[n]);
        assert(all[all.len() - 1] == last);
        assert forall|i: int| 0 <= i < before.len() implies !(#[trigger] same_path(
            before[i],
            last,
        )) by {
            assert(!same_path(all[i], all[all.len() - 1]));
        }
        assert(before.push(last) =~= all);
    }
}

/// The directories are searched in this order: the two of the user, those of the
/// data directories in the order in which they are named, and that of the system's
/// Flatpak applications. This is the whole list where no two of them are the same.
pub proof fn directories_are_searched_in_order(home: Seq<u8>, dirs: Seq<Seq<char>>)
    requires
        home.len() > 0,
        home.last() != 0x2fu8,
        dirs.len() > 0,
        forall|i: int| 0 <= i < dirs.len() ==> (#[trigger] dirs[i]).len() > 0 && !dirs[i].contains(
            ':',
        ),
        new_from(
            seq![
                home + seq![0x2fu8] + encode_utf8(".local/share/applications"@),
                home + seq![0x2fu8] + encode_utf8(
                    ".local/share/flatpak/exports/share/applications"@,
                ),
            ] + Seq::new(dirs.len(), |i: int| applications_in(dirs[i])) + seq![
                encode_utf8("/var/lib/flatpak/exports/share/applications"@),
            ],
            0,
        ),
    ensures
        search_dirs(Some(home), joined(dirs, seq![':'])) == seq![
            home + seq![0x2fu8] + encode_utf8(".local/share/applications"@),
            home + seq![0x2fu8] + encode_utf8(".local/share/flatpak/exports/share/applications"@),
        ] + Seq::new(dirs.len(), |i: int| applications_in(dirs[i])) + seq![
            encode_utf8("/var/lib/flatpak/exports/share/applications"@),
        ],
{
    let own = seq![
        home + seq![0x2fu8] + encode_utf8(".local/share/applications"@),
        home + seq![0x2fu8] + encode_utf8(".local/share/flatpak/exports/share/applications"@),
    ];
    let added = Seq::new(dirs.len(), |i: int| applications_in(dirs[i]));
    let flatpak = encode_utf8("/var/lib/flatpak/exports/share/applications"@);
    let all = own + added + seq![flatpak];
    assert(home_dirs(Some(home)) =~= own);
    fields_survive_joining(dirs, ':');
    let before = own + added;
    assert forall|i: int, j: int| 0 <= i < j < before.len() && 0 <= j implies !(
    #[trigger] same_path(before[i], before[j])) by {
        assert(!same_path(all[i], all[j]));
    }
    lemma_data_dirs_without_repetition(own, dirs);
    let n = before.len() as int;
    assert(all[n] == flatpak);
    assert forall|i: int| 0 <= i < before.len() implies !(#[trigger] same_path(
        before[i],
        flatpak,
    )) by {
        assert(!same_path(all[i], all[n]));
    }
    assert(before.push(flatpak) =~= all);
}

/// The desktop files of a data directory are those in the directory
/// `applications` below it.
pub proof fn applications_stand_below_a_data_directory(data_dir: Seq<char>)
    requires
        encode_utf8(data_dir).len() > 0,
        encode_utf8(data_dir).last() != 0x2fu8,
    ensures
        applications_in(data_dir) == encode_utf8(data_dir) + seq![0x2fu8] + encode_utf8(
            "applications"@,
        ),
{
}

/// Every data directory that is named is searched, however it is written and also
/// where it is named twice, and so is that of the system's Flatpak applications.
pub proof fn no_directory_is_left_out(home: Option<Seq<u8>>, dirs: Seq<Seq<char>>, i: int)
    requires
        0 <= i < dirs.len(),
        dirs[i].len() > 0,
        forall|j: int| 0 <= j < dirs.len() ==> !(#[trigger] dirs[j]).contains(':'),
    ensures
        among(search_dirs(home, joined(dirs, seq![':'])), applications_in(dirs[i])),
        among(
            search_dirs(home, joined(dirs, seq![':'])),
            encode_utf8("/var/lib/flatpak/exports/share/applications"@),
        ),
{
    fields_survive_joining(dirs, ':');
    lemma_data_dir_is_among(home_dirs(home), dirs, i);
    let before = with_data_dirs(home_dirs(home), dirs);
    let flatpak = encode_utf8("/var/lib/flatpak/exports/share/applications"@);
    lemma_with_path_keeps(before, flatpak, applications_in(dirs[i]));
    lemma_with_path_has(before, flatpak);
}

/// An empty piece among the data directories names none: a colon more changes
/// nothing.
pub proof fn empty_data_directories_are_passed_over(home: Option<Seq<u8>>, data_dirs: Seq<char>)
    ensures
        search_dirs(home, data_dirs + seq![':']) == search_dirs(home, data_dirs),
        search_dirs(home, seq![':'] + data_dirs) == search_dirs(home, data_dirs),
        search_dirs(home, seq![]) == with_path(
            home_dirs(home),
            encode_utf8("/var/lib/flatpak/exports/share/applications"@),
        ),
{
    let none: Seq<char> = seq![];
    let own = home_dirs(home);
    let pieces = fields(data_dirs, ':');
    lemma_position_is(none, ':', 0);
    assert(fields(none, ':') =~= seq![none]);
    fields_of_both_sides(data_dirs, ':', none);
    assert(data_dirs + seq![':'] + none =~= data_dirs + seq![':']);
    assert((pieces + seq![none]).drop_last() =~= pieces);
    assert((pieces + seq![none]).last() == none);
    fields_of_both_sides(none, ':', data_dirs);
    assert(none + seq![':'] + data_dirs =~= seq![':'] + data_dirs);
    lemma_empty_piece_in_front(own, pieces);
    reveal_with_fuel(with_data_dirs, 2);
    assert(seq![none].drop_last() =~= seq![]);
    assert(seq![none].last() == none);
}

proof fn lemma_empty_piece_in_front(paths: Seq<Seq<u8>>, dirs: Seq<Seq<char>>)
    ensures
        with_data_dirs(paths, seq![Seq::<char>::empty()] + dirs) == with_data_dirs(paths, dirs),
    decreases dirs.len(),
{
    let all = seq![Seq::<char>::empty()] + dirs;
    if dirs.len() == 0 {
        assert(all.drop_last() =~= dirs);
        assert(all.last() == Seq::<char>::empty());
    } else {
        lemma_empty_piece_in_front(paths, dirs.drop_last());
        assert(all.drop_last() =~= seq![Seq::<char>::empty()] + dirs.drop_last());
        assert(all.last() == dirs.last());
    }
}

proof fn lemma_with_path_has(paths: Seq<Seq<u8>>, path: Seq<u8>)
    ensures
        among(with_path(paths, path), path),
{
    if !among(paths, path) {
        let after = with_path(paths, path);
        assert(same_path(after[paths.len() as int], path));
    }
}

proof fn lemma_with_path_keeps(paths: Seq<Seq<u8>>, path: Seq<u8>, other: Seq<u8>)
    requires
        among(paths, other),
    ensures
        among(with_path(paths, path), other),
{
    let i = choose|i: int| 0 <= i < paths.len() && #[trigger] same_path(paths[i], other);
    assert(with_path(paths, path)[i] == paths[i]);
    assert(same_path(with_path(paths, path)[i], other));
}

proof fn lemma_data_dir_is_among(paths: Seq<Seq<u8>>, dirs: Seq<Seq<char>>, i: int)
    requires
        0 <= i < dirs.len(),
        dirs[i].len() > 0,
    ensures
        among(with_data_dirs(paths, dirs), applications_in(dirs[i])),
    decreases dirs.len(),
{
    let front = dirs.drop_last();
    let before = with_data_dirs(paths, front);
    if i == dirs.len() - 1 {
        lemma_with_path_has(before, applications_in(dirs[i]));
    } else {
        lemma_data_dir_is_among(paths, front, i);
        assert(front[i] == dirs[i]);
        lemma_with_path_keeps(before, applications_in(dirs.last()), applications_in(dirs[i]));
    }
}

fn add_path(paths: &mut Vec<Vec<u8>>, path: Vec<u8>)
    ensures
        byte_strings(final(paths)@) == with_path(byte_strings(old(paths)@), path@),
{
    if !is_among(paths, path.as_slice()) {
        let ghost p = path@;
        paths.push(path);
        assert(byte_strings(paths@) =~= byte_strings(old(paths)@).push(p));
    }
}

/// The directories to be searched for desktop files, in their order; those that
/// do not exist are to be passed over. `home` is the home directory, and
/// `data_dirs` the list of data directories that the environment names.
pub fn desktop_search_dirs(home: Option<&[u8]>, data_dirs: Option<&str>) -> (r: Vec<Vec<u8>>)
    ensures
        byte_strings(r@) == search_dirs(
            optional_bytes(home),
            match data_dirs {
                Some(dirs) => dirs@,
                None => DEFAULT_DATA_DIRS@,
            },
        ),
{
    let mut dirs: Vec<Vec<u8>> = Vec::new();
    if let Some(dir) = home {
        dirs.push(join_path(dir, HOME_APPLICATIONS));
        dirs.push(join_path(dir, HOME_FLATPAK_APPLICATIONS));
    }
    let ghost start = byte_strings(dirs@);
    assert(start =~= home_dirs(optional_bytes(home)));
    let list = match data_dirs {
        Some(dirs) => dirs,
        None => DEFAULT_DATA_DIRS,
    };
    let segments = split_on(list, ':');
    let n: usize = segments.len();
    let mut i: usize = 0;
    assert(byte_strings(dirs@) == with_data_dirs(start, slices(segments@).take(0)));
    while i < n
        invariant
            i <= n,
            n == segments@.len(),
            byte_strings(dirs@) == with_data_dirs(start, slices(segments@).take(i as int)),
        decreases n - i,
    {
        let segment = segments[i];
        proof {
            let all = slices(segments@);
            assert(all.take(i + 1).drop_last() =~= all.take(i as int));
            assert(all.take(i + 1).last() == segment@);
        }
        if !segment.is_empty() {
            let path = join_path(segment.as_bytes(), "applications");
            add_path(&mut dirs, path);
        }
        i += 1;
    }
    assert(slices(segments@).take(n as int) =~= slices(segments@));
    let flatpak = bytes_of(SYSTEM_FLATPAK_APPLICATIONS.as_bytes());
    add_path(&mut dirs, flatpak);
    dirs
}

} // verus!
