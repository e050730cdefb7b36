//! The placement planner: from a metadata mapping and the original file name
//! to an author directory name and a destination file name.
//!
//! The names are used as path segments exactly as derived: author values are
//! not sanitised, so metadata text containing path separators reaches the
//! filesystem unchanged. Callers who cannot accept that must filter the
//! names themselves before placing anything.

use crate::metadata::{views_of, Metadata};
use crate::text::{trim, trimmed};
use vstd::prelude::*;
use vstd::string::*;

verus! {

/// The author values joined with comma-space, in their reported order.
pub open spec fn joined_authors(vs: Seq<Seq<char>>) -> Seq<char>
    decreases vs.len(),
{
    if vs.len() == 0 {
        Seq::empty()
    } else if vs.len() == 1 {
        vs[0]
    } else {
        joined_authors(vs.drop_last()) + ", "@ + vs.last()
    }
}

/// The author directory name: the joined `creator` values where that key is
/// present with at least one value, the sentinel `Unsorted` otherwise.
pub open spec fn author_dir_spec(m: Metadata) -> Seq<char> {
    match m.lookup("creator"@) {
        Some(vs) => if vs.len() > 0 {
            joined_authors(vs)
        } else {
            "Unsorted"@
        },
        None => "Unsorted"@,
    }
}

/// The destination file name: the trimmed first `title` value with the
/// target extension appended where that key has a value, the trimmed
/// original file name (extension and all) otherwise.
pub open spec fn dest_name_spec(m: Metadata, original: Seq<char>) -> Seq<char> {
    match m.lookup("title"@) {
        Some(vs) => if vs.len() > 0 {
            trimmed(vs[0]) + ".epub"@
        } else {
            trimmed(original)
        },
        None => trimmed(original),
    }
}

/// Where one candidate belongs: the directory segment and the file name.
pub struct Placement {
    pub author_dir: String,
    pub dest_file: String,
}

fn join_comma(vs: &Vec<String>) -> (r: String)
    ensures
        r@ == joined_authors(views_of(vs@)),
{
    let vv = Ghost(views_of(vs@));
    let mut out = String::new();
    let n = vs.len();
    let mut i: usize = 0;
    while i < n
        invariant
            0 <= i <= n,
            n == vs@.len(),
            vv@ == views_of(vs@),
            out@ == joined_authors(vv@.subrange(0, i as int)),
        decreases n - i,
    {
        if i > 0 {
            out.append(", ");
        }
        out.append(vs[i].as_str());
        proof {
            let next = vv@.subrange(0, i + 1);
            assert(next.drop_last() =~= vv@.subrange(0, i as int));
            assert(next.last() == vs@[i as int]@);
            if i == 0 {
                assert(out@ =~= next[0]);
            }
        }
        i = i + 1;
    }
    proof {
        assert(vv@.subrange(0, n as int) =~= vv@);
    }
    out
}

/// Derives the author directory name for a candidate's metadata.
pub fn author_dir_name(m: &Metadata) -> (r: String)
    ensures
        r@ == author_dir_spec(*m),
{
    match m.get("creator") {
        Some(vs) => {
            if vs.len() > 0 {
                join_comma(vs)
            } else {
                "Unsorted".to_owned()
            }
        },
        None => "Unsorted".to_owned(),
    }
}

/// Derives the destination file name for a candidate's metadata and its
/// original file name.
pub fn dest_file_name(m: &Metadata, original_name: &str) -> (r: String)
    ensures
        r@ == dest_name_spec(*m, original_name@),
{
    match m.get("title") {
        Some(vs) => {
            if vs.len() > 0 {
                let t = trim(vs[0].as_str());
                t.concat(".epub")
            } else {
                trim(original_name)
            }
        },
        None => trim(original_name),
    }
}

/// Plans one candidate's placement.
///
/// A non-empty `creator` list yields exactly its comma-space join as the
/// directory; a missing (or empty) `creator` yields `Unsorted`. A `title`
/// with a value yields the trimmed title plus the extension, whatever the
/// original name was; a missing (or value-less) `title` keeps the trimmed
/// original name.
pub fn plan(m: &Metadata, original_name: &str) -> (p: Placement)
    ensures
        p.author_dir@ == author_dir_spec(*m),
        p.dest_file@ == dest_name_spec(*m, original_name@),
        (match m.lookup("creator"@) {
            Some(vs) => vs.len() > 0 ==> p.author_dir@ == joined_authors(vs),
            None => p.author_dir@ == "Unsorted"@,
        }),
        (match m.lookup("title"@) {
            Some(vs) => vs.len() > 0 ==> p.dest_file@ == trimmed(vs[0]) + ".epub"@,
            None => p.dest_file@ == trimmed(original_name@),
        }),
{
    Placement { author_dir: author_dir_name(m), dest_file: dest_file_name(m, original_name) }
}

/// Appends one path segment to a base path, with the usual separator. The
/// segment is used as-is.
pub fn join_path(base: &str, seg: &str) -> (r: String)
    ensures
        r@ == base@ + "/"@ + seg@,
{
    let mut out = base.to_owned();
    out.append("/");
    out.append(seg);
    out
}

} // verus!
