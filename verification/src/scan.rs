//! The traversal filter: which file names count as candidates.

use vstd::prelude::*;
use vstd::string::*;

verus! {

/// A file name names a candidate when its extension is exactly `epub`:
/// it ends in `.epub`, and that dot is not the name's first character
/// (a bare `.epub` is a hidden file without an extension).
pub open spec fn is_epub_name(name: Seq<char>) -> bool {
    name.len() >= 6 && name.subrange(name.len() - 5, name.len() as int) == ".epub"@
}

/// Decides whether a file name carries the target extension, case-sensitively.
pub fn has_epub_extension(name: &str) -> (r: bool)
    ensures
        r == is_epub_name(name@),
{
    proof {
        reveal_strlit(".epub");
    }
    let n = name.unicode_len();
    if n < 6 {
        return false;
    }
    let r = name.get_char(n - 5) == '.' && name.get_char(n - 4) == 'e'
        && name.get_char(n - 3) == 'p' && name.get_char(n - 2) == 'u'
        && name.get_char(n - 1) == 'b';
    proof {
        let tail = name@.subrange(name@.len() - 5, name@.len() as int);
        if r {
            assert(tail =~= ".epub"@);
        } else {
            if tail == ".epub"@ {
                assert(name@[name@.len() - 5] == tail[0]);
                assert(name@[name@.len() - 4] == tail[1]);
                assert(name@[name@.len() - 3] == tail[2]);
                assert(name@[name@.len() - 2] == tail[3]);
                assert(name@[name@.len() - 1] == tail[4]);
                assert(false);
            }
        }
    }
    r
}

} // verus!
