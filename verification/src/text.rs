//! Character-level helpers: white-space trimming and string equality.

use vstd::prelude::*;
use vstd::string::*;

verus! {

/// A character that trimming strips from either end of a title or file name:
/// the Unicode white-space set.
pub open spec fn is_space_char(c: char) -> bool {
    c == ' ' || c == '\t' || c == '\n' || c == '\u{000B}' || c == '\u{000C}'
        || c == '\r' || c == '\u{0085}' || c == '\u{00A0}' || c == '\u{1680}'
        || c == '\u{2000}' || c == '\u{2001}' || c == '\u{2002}' || c == '\u{2003}'
        || c == '\u{2004}' || c == '\u{2005}' || c == '\u{2006}' || c == '\u{2007}'
        || c == '\u{2008}' || c == '\u{2009}' || c == '\u{200A}' || c == '\u{2028}'
        || c == '\u{2029}' || c == '\u{202F}' || c == '\u{205F}' || c == '\u{3000}'
}

fn is_space(c: char) -> (b: bool)
    ensures
        b == is_space_char(c),
{
    c == ' ' || c == '\t' || c == '\n' || c == '\u{000B}' || c == '\u{000C}'
        || c == '\r' || c == '\u{0085}' || c == '\u{00A0}' || c == '\u{1680}'
        || c == '\u{2000}' || c == '\u{2001}' || c == '\u{2002}' || c == '\u{2003}'
        || c == '\u{2004}' || c == '\u{2005}' || c == '\u{2006}' || c == '\u{2007}'
        || c == '\u{2008}' || c == '\u{2009}' || c == '\u{200A}' || c == '\u{2028}'
        || c == '\u{2029}' || c == '\u{202F}' || c == '\u{205F}' || c == '\u{3000}'
}

/// The sequence with every leading white-space character removed.
pub open spec fn trim_start(s: Seq<char>) -> Seq<char>
    decreases s.len(),
{
    if s.len() > 0 && is_space_char(s.first()) {
        trim_start(s.drop_first())
    } else {
        s
    }
}

/// The sequence with every trailing white-space character removed.
pub open spec fn trim_end(s: Seq<char>) -> Seq<char>
    decreases s.len(),
{
    if s.len() > 0 && is_space_char(s.last()) {
        trim_end(s.drop_last())
    } else {
        s
    }
}

/// The sequence with white space removed from both ends.
pub open spec fn trimmed(s: Seq<char>) -> Seq<char> {
    trim_end(trim_start(s))
}

proof fn lemma_trim_start_at(s: Seq<char>, k: int)
    requires
        0 <= k <= s.len(),
        forall|m: int| 0 <= m < k ==> is_space_char(s[m]),
        k == s.len() || !is_space_char(s[k]),
    ensures
        trim_start(s) =~= s.subrange(k, s.len() as int),
    decreases k,
{
    if k == 0 {
        assert(s.subrange(0, s.len() as int) =~= s);
    } else {
        assert(is_space_char(s[0]));
        let t = s.drop_first();
        assert(forall|m: int| 0 <= m < k - 1 ==> is_space_char(t[m]));
        lemma_trim_start_at(t, k - 1);
        assert(t.subrange(k - 1, t.len() as int) =~= s.subrange(k, s.len() as int));
    }
}

proof fn lemma_trim_end_at(s: Seq<char>, j: int)
    requires
        0 <= j <= s.len(),
        forall|m: int| j <= m < s.len() ==> is_space_char(s[m]),
        j == 0 || !is_space_char(s[j - 1]),
    ensures
        trim_end(s) =~= s.subrange(0, j),
    decreases s.len() - j,
{
    if j == s.len() {
        assert(s.subrange(0, s.len() as int) =~= s);
    } else {
        assert(is_space_char(s.last()));
        let t = s.drop_last();
        assert(forall|m: int| j <= m < t.len() ==> is_space_char(t[m]));
        lemma_trim_end_at(t, j);
        assert(t.subrange(0, j) =~= s.subrange(0, j));
    }
}

/// Removes leading and trailing white space from a string, as the planner's
/// naming rules require.
pub fn trim(s: &str) -> (r: String)
    ensures
        r@ == trimmed(s@),
{
    let n = s.unicode_len();
    let mut i: usize = 0;
    while i < n
        invariant_except_break
            0 <= i <= n,
            n == s@.len(),
            forall|m: int| 0 <= m < i ==> is_space_char(s@[m]),
        ensures
            0 <= i <= n,
            n == s@.len(),
            forall|m: int| 0 <= m < i ==> is_space_char(s@[m]),
            i == n || !is_space_char(s@[i as int]),
        decreases n - i,
    {
        if !is_space(s.get_char(i)) {
            break;
        }
        i = i + 1;
    }
    let mut j: usize = n;
    while j > i
        invariant_except_break
            i <= j <= n,
            n == s@.len(),
            forall|m: int| j <= m < n ==> is_space_char(s@[m]),
        ensures
            i <= j <= n,
            n == s@.len(),
            forall|m: int| j <= m < n ==> is_space_char(s@[m]),
            j == i || !is_space_char(s@[j - 1]),
        decreases j,
    {
        if !is_space(s.get_char(j - 1)) {
            break;
        }
        j = j - 1;
    }
    let sub = s.substring_char(i, j);
    proof {
        lemma_trim_start_at(s@, i as int);
        let t = s@.subrange(i as int, s@.len() as int);
        assert(forall|m: int| j - i <= m < t.len() ==> is_space_char(t[m]));
        lemma_trim_end_at(t, j - i as int);
        assert(t.subrange(0, j - i as int) =~= s@.subrange(i as int, j as int));
    }
    sub.to_owned()
}

/// Character-for-character string equality, used to look metadata keys up.
pub fn str_eq(a: &str, b: &str) -> (r: bool)
    ensures
        r == (a@ == b@),
{
    let n = a.unicode_len();
    if n != b.unicode_len() {
        return false;
    }
    let mut i: usize = 0;
    while i < n
        invariant_except_break
            0 <= i <= n,
            n == a@.len(),
            n == b@.len(),
            forall|m: int| 0 <= m < i ==> a@[m] == b@[m],
        ensures
            0 <= i <= n,
            n == a@.len(),
            n == b@.len(),
            forall|m: int| 0 <= m < i ==> a@[m] == b@[m],
            i < n ==> a@[i as int] != b@[i as int],
        decreases n - i,
    {
        if a.get_char(i) != b.get_char(i) {
            break;
        }
        i = i + 1;
    }
    if i < n {
        false
    } else {
        proof {
            assert(a@ =~= b@);
        }
        true
    }
}

} // verus!
