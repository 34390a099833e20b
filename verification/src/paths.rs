use vstd::prelude::*;
use vstd::string::StringSliceAdditionalSpecFns;
use vstd::string::StrSliceExecFns;

verus! {

/// The path separator, as a byte of a UTF-8 path string.
pub const SLASH: u8 = 47;

/// `dir` is a directory prefix of `path`, both given as canonical byte
/// strings: `dir`'s bytes open `path`, and the match ends on a component
/// boundary (end of `path`, a separator in `path`, or `dir` itself ending in
/// a separator, as the filesystem root does).
pub open spec fn spec_under_dir(dir: Seq<u8>, path: Seq<u8>) -> bool {
    &&& dir.len() <= path.len()
    &&& path.subrange(0, dir.len() as int) == dir
    &&& {
        ||| path.len() == dir.len()
        ||| path[dir.len() as int] == SLASH
        ||| (dir.len() > 0 && dir[dir.len() - 1] == SLASH)
    }
}

/// A walked entry is offered as a candidate exactly when it is a regular
/// file and does not lie under the destination directory.
pub open spec fn spec_accept_candidate(is_file: bool, path: Seq<u8>, dest: Seq<u8>) -> bool {
    is_file && !spec_under_dir(dest, path)
}

/// True iff `path` lies under the directory `dir`, the two given as
/// canonical path strings. Works on the UTF-8 bytes of the strings.
pub fn path_under_dir(path: &str, dir: &str) -> (r: bool)
    ensures
        r == spec_under_dir(dir.spec_bytes(), path.spec_bytes()),
{
    let pb: Vec<u8> = path.as_bytes_vec();
    let db: Vec<u8> = dir.as_bytes_vec();
    if db.len() > pb.len() {
        return false;
    }
    let mut i: usize = 0;
    while i < db.len()
        invariant
            0 <= i <= db.len() <= pb.len(),
            pb@ == path.spec_bytes(),
            db@ == dir.spec_bytes(),
            forall|j: int| 0 <= j < i ==> pb@[j] == db@[j],
        decreases db.len() - i,
    {
        if pb[i] != db[i] {
            proof {
                assert(pb@.subrange(0, db@.len() as int)[i as int] != db@[i as int]);
            }
            return false;
        }
        i = i + 1;
    }
    proof {
        assert(pb@.subrange(0, db@.len() as int) =~= db@);
    }
    if pb.len() == db.len() {
        true
    } else if pb[db.len()] == SLASH {
        true
    } else if db.len() > 0 && db[db.len() - 1] == SLASH {
        true
    } else {
        false
    }
}

/// The walker's filter: offer a walked entry as a copy candidate only when
/// it is a regular file lying outside the destination directory. `path` and
/// `dest` are canonical path strings.
pub fn accept_candidate(is_file: bool, path: &str, dest: &str) -> (r: bool)
    ensures
        r == spec_accept_candidate(is_file, path.spec_bytes(), dest.spec_bytes()),
{
    is_file && !path_under_dir(path, dest)
}

/// Destination exclusion: a file lying under the destination directory is
/// never offered as a candidate, so nothing already copied is re-copied even
/// when the destination is nested inside the source tree.
pub proof fn lemma_destination_excluded(is_file: bool, path: Seq<u8>, dest: Seq<u8>)
    requires
        spec_under_dir(dest, path),
    ensures
        !spec_accept_candidate(is_file, path, dest),
{
}

/// Where the base name of a path starts: just after the last separator, or
/// at the start when the path has none.
pub open spec fn spec_name_start(p: Seq<u8>) -> int
    decreases p.len(),
{
    if p.len() == 0 {
        0
    } else if p[p.len() - 1] == SLASH {
        p.len() as int
    } else {
        spec_name_start(p.drop_last())
    }
}

/// The base name of a path: everything after its last separator.
pub open spec fn spec_file_name(p: Seq<u8>) -> Seq<u8> {
    p.subrange(spec_name_start(p), p.len() as int)
}

proof fn lemma_name_start_bounds(p: Seq<u8>)
    ensures
        0 <= spec_name_start(p) <= p.len(),
    decreases p.len(),
{
    if p.len() > 0 && p[p.len() - 1] != SLASH {
        lemma_name_start_bounds(p.drop_last());
    }
}

/// The base name of the file at `path`, as the bytes after the last
/// separator (the whole path when it has no separator).
pub fn file_name_bytes(path: &str) -> (r: Vec<u8>)
    ensures
        r@ == spec_file_name(path.spec_bytes()),
{
    let pb: Vec<u8> = path.as_bytes_vec();
    let mut i: usize = pb.len();
    proof {
        assert(pb@.take(pb@.len() as int) =~= pb@);
    }
    while i > 0 && pb[i - 1] != SLASH
        invariant
            0 <= i <= pb.len(),
            pb@ == path.spec_bytes(),
            spec_name_start(pb@) == spec_name_start(pb@.take(i as int)),
        decreases i,
    {
        proof {
            assert(pb@.take(i as int).drop_last() =~= pb@.take(i - 1));
            assert(pb@.take(i as int)[i - 1] == pb@[i - 1]);
        }
        i = i - 1;
    }
    proof {
        lemma_name_start_bounds(pb@.take(i as int));
        if i > 0 {
            assert(pb@.take(i as int)[i - 1] == pb@[i - 1]);
        }
        assert(spec_name_start(pb@) == i);
    }
    let mut r: Vec<u8> = Vec::new();
    let mut j: usize = i;
    while j < pb.len()
        invariant
            spec_name_start(pb@) == i,
            i <= j <= pb.len(),
            pb@ == path.spec_bytes(),
            r@ == pb@.subrange(i as int, j as int),
        decreases pb.len() - j,
    {
        r.push(pb[j]);
        proof {
            assert(pb@.subrange(i as int, j + 1 as int) =~= pb@.subrange(i as int, j as int).push(
                pb@[j as int],
            ));
        }
        j = j + 1;
    }
    r
}

/// The flattened destination of a source file: the destination directory,
/// one separator, and the source's base name. Directory structure under the
/// source root is discarded.
pub open spec fn spec_dest_path(dest_dir: Seq<u8>, src: Seq<u8>) -> Seq<u8> {
    dest_dir + seq![SLASH] + spec_file_name(src)
}

/// Build the destination path for the source file at `src`: `dest_dir`,
/// a separator, and `src`'s base name, as UTF-8 path bytes.
pub fn dest_path_bytes(dest_dir: &str, src: &str) -> (r: Vec<u8>)
    ensures
        r@ == spec_dest_path(dest_dir.spec_bytes(), src.spec_bytes()),
{
    let mut r: Vec<u8> = dest_dir.as_bytes_vec();
    r.push(SLASH);
    let name = file_name_bytes(src);
    let mut j: usize = 0;
    while j < name.len()
        invariant
            0 <= j <= name.len(),
            name@ == spec_file_name(src.spec_bytes()),
            r@ == dest_dir.spec_bytes() + seq![SLASH] + name@.take(j as int),
        decreases name.len() - j,
    {
        r.push(name[j]);
        proof {
            assert(dest_dir.spec_bytes() + seq![SLASH] + name@.take(j + 1 as int) =~= (
            dest_dir.spec_bytes() + seq![SLASH] + name@.take(j as int)).push(name@[j as int]));
        }
        j = j + 1;
    }
    proof {
        assert(name@.take(name@.len() as int) =~= name@);
    }
    r
}

/// Flattening collision: two source files with the same base name are sent
/// to the same destination path, whatever directories they came from.
pub proof fn lemma_flatten_collision(dest_dir: Seq<u8>, src1: Seq<u8>, src2: Seq<u8>)
    requires
        spec_file_name(src1) == spec_file_name(src2),
    ensures
        spec_dest_path(dest_dir, src1) == spec_dest_path(dest_dir, src2),
{
}

} // verus!
