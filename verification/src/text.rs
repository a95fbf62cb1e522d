//! Character-level helpers for file names and mode strings.
//!
//! The batch planner only needs three things from text: exact equality
//! of short mode names, an ASCII-case-insensitive extension check, and
//! the file-name component after the last `/` of a path.  All three are
//! written over the character sequences that `&str` views stand for.

use vstd::prelude::*;
use vstd::string::*;

verus! {

/// ASCII lower-casing of one character; everything outside `A..=Z`
/// passes through unchanged.
pub open spec fn spec_lower_char(c: char) -> char {
    if 65 <= c as u32 <= 90 {
        ((c as u32 + 32) as u8) as char
    } else {
        c
    }
}

/// ASCII lower-casing of a whole character sequence.
pub open spec fn spec_lower_seq(s: Seq<char>) -> Seq<char> {
    s.map_values(|c: char| spec_lower_char(c))
}

/// Lower-case one ASCII letter, pass anything else through.
pub fn lower_char(c: char) -> (r: char)
    ensures
        r == spec_lower_char(c),
{
    let u = c as u32;
    if 65 <= u && u <= 90 {
        ((u + 32) as u8) as char
    } else {
        c
    }
}

/// Exact character-for-character string equality.
pub fn str_eq(a: &str, b: &str) -> (r: bool)
    ensures
        r == (a@ == b@),
{
    let n = a.unicode_len();
    if n != b.unicode_len() {
        assert(a@.len() != b@.len());
        return false;
    }
    let mut i: usize = 0;
    while i < n
        invariant
            i <= n,
            n == a@.len(),
            n == b@.len(),
            forall|j: int| 0 <= j < i ==> a@[j] == b@[j],
        decreases n - i,
    {
        if a.get_char(i) != b.get_char(i) {
            assert(a@[i as int] != b@[i as int]);
            return false;
        }
        i += 1;
    }
    proof {
        assert(a@ =~= b@);
    }
    true
}

/// `suf` is a suffix of `s`.
pub open spec fn spec_has_suffix(s: Seq<char>, suf: Seq<char>) -> bool {
    s.len() >= suf.len() && s.subrange(s.len() - suf.len(), s.len() as int) == suf
}

/// Does `s`, lower-cased ASCII-wise, end in the (already lower-case)
/// `suffix`?
pub fn ends_with_lowered(s: &str, suffix: &str) -> (r: bool)
    ensures
        r == spec_has_suffix(spec_lower_seq(s@), suffix@),
{
    let n = s.unicode_len();
    let k = suffix.unicode_len();
    if n < k {
        assert(spec_lower_seq(s@).len() < suffix@.len());
        return false;
    }
    let mut i: usize = 0;
    while i < k
        invariant
            i <= k <= n,
            n == s@.len(),
            k == suffix@.len(),
            forall|j: int| 0 <= j < i ==> spec_lower_char(s@[n - k + j]) == suffix@[j],
        decreases k - i,
    {
        let c = lower_char(s.get_char(n - k + i));
        let d = suffix.get_char(i);
        if c != d {
            proof {
                let lo = spec_lower_seq(s@);
                assert(lo[n - k + i] == spec_lower_char(s@[n - k + i]));
                assert(lo.subrange(lo.len() - suffix@.len(), lo.len() as int)[i as int]
                    != suffix@[i as int]);
            }
            return false;
        }
        i += 1;
    }
    proof {
        let lo = spec_lower_seq(s@);
        assert(lo.subrange(lo.len() - suffix@.len(), lo.len() as int) =~= suffix@);
    }
    true
}

/// The file-name component of a path: the characters after the last
/// `/`, or the whole path if it has none.  Scanned from the end, a `/`
/// cuts the name off; any other character extends it.
pub open spec fn spec_file_name(s: Seq<char>) -> Seq<char>
    decreases s.len(),
{
    if s.len() == 0 {
        Seq::empty()
    } else if s.last() == '/' {
        Seq::empty()
    } else {
        spec_file_name(s.drop_last()).push(s.last())
    }
}

/// The file name is exactly the slash-free tail of the path.
proof fn lemma_file_name_is_tail(s: Seq<char>, j: int)
    requires
        0 <= j <= s.len(),
        forall|i: int| j <= i < s.len() ==> s[i] != '/',
        j > 0 ==> s[j - 1] == '/',
    ensures
        spec_file_name(s) == s.subrange(j, s.len() as int),
    decreases s.len(),
{
    if s.len() == 0 {
        assert(s.subrange(0, 0) =~= Seq::<char>::empty());
    } else if j == s.len() {
        assert(s.last() == '/');
        assert(s.subrange(j, s.len() as int) =~= Seq::<char>::empty());
    } else {
        assert(s.last() != '/');
        let t = s.drop_last();
        lemma_file_name_is_tail(t, j);
        assert(spec_file_name(s) == t.subrange(j, t.len() as int).push(s.last()));
        assert(t.subrange(j, t.len() as int).push(s.last()) =~= s.subrange(j, s.len() as int));
    }
}

/// Extract the file-name component after the last `/` of `path`.
pub fn file_name_of(path: &str) -> (r: String)
    ensures
        r@ == spec_file_name(path@),
{
    let n = path.unicode_len();
    let mut j: usize = 0;
    let mut i: usize = 0;
    while i < n
        invariant
            j <= i <= n,
            n == path@.len(),
            forall|t: int| j <= t < i ==> path@[t] != '/',
            j > 0 ==> path@[j - 1] == '/',
        decreases n - i,
    {
        if path.get_char(i) == '/' {
            j = i + 1;
        }
        i += 1;
    }
    proof {
        lemma_file_name_is_tail(path@, j as int);
    }
    let tail = path.substring_char(j, n);
    String::from_str(tail)
}

} // verus!
