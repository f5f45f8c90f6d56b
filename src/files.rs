use vstd::prelude::*;
use vstd::string::StrSliceExecFns;

verus! {

/// `suffix` is the end of `s`.
pub open spec fn ends_with(s: Seq<char>, suffix: Seq<char>) -> bool {
    suffix.len() <= s.len() && s.subrange(s.len() - suffix.len(), s.len() as int) == suffix
}

/// Whether the path `str` ends in `extension` (for source files: `.sbl`).
/// A path shorter than the extension is rejected.
pub fn check_extension(str: &str, extension: &str) -> (r: bool)
    ensures
        r == ends_with(str@, extension@),
{
    let n = str.unicode_len();
    let k = extension.unicode_len();
    if k > n {
        return false;
    }
    let start = n - k;
    let mut i: usize = 0;
    while i < k
        invariant
            n == str@.len(),
            k == extension@.len(),
            start == n - k,
            i <= k,
            forall|j: int| 0 <= j < i ==> str@[start + j] == extension@[j],
        decreases k - i,
    {
        if str.get_char(start + i) != extension.get_char(i) {
            assert(str@.subrange(start as int, n as int)[i as int] != extension@[i as int]);
            return false;
        }
        i += 1;
    }
    assert(str@.subrange(start as int, n as int) =~= extension@);
    true
}

} // verus!
