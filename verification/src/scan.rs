use vstd::prelude::*;

use crate::error::Error;
use crate::pattern::{PatByte, Pattern};

verus! {

/// Whether one pattern position accepts a buffer byte.
pub open spec fn pat_byte_matches(p: PatByte, b: u8) -> bool {
    match p {
        PatByte::Exact(e) => b == e,
        PatByte::Wildcard => true,
    }
}

/// Whether the whole pattern matches the buffer at offset `off`: every
/// non-wildcard position equals the corresponding buffer byte.
pub open spec fn matches_at(buf: Seq<u8>, pat: Seq<PatByte>, off: int) -> bool {
    &&& 0 <= off
    &&& off + pat.len() <= buf.len()
    &&& forall|j: int| 0 <= j < pat.len() ==> pat_byte_matches(#[trigger] pat[j], buf[off + j])
}

fn check_at(buf: &Vec<u8>, pat: &Pattern, off: usize) -> (b: bool)
    requires
        off + pat@.len() <= buf@.len(),
    ensures
        b == matches_at(buf@, pat@, off as int),
{
    let n = pat.len();
    let blen = buf.len();
    let mut j: usize = 0;
    while j < n
        invariant
            n == pat@.len(),
            blen == buf@.len(),
            off + n <= blen,
            j <= n,
            forall|k: int| 0 <= k < j ==> pat_byte_matches(#[trigger] pat@[k], buf@[off + k]),
        decreases n - j,
    {
        match pat.matcher_at(j) {
            PatByte::Exact(e) => {
                if buf[off + j] != e {
                    return false;
                }
            },
            PatByte::Wildcard => {},
        }
        j += 1;
    }
    true
}

/// Scans the buffer for the first offset where the pattern matches. Returns
/// the lowest matching offset; fails with `PatternNotFound` exactly when no
/// offset of the buffer matches.
pub fn scan(buf: &Vec<u8>, pat: &Pattern) -> (r: Result<usize, Error>)
    ensures
        match r {
            Ok(off) => matches_at(buf@, pat@, off as int) && forall|k: int|
                0 <= k < off ==> !matches_at(buf@, pat@, k),
            Err(e) => e == Error::PatternNotFound && forall|k: int| !matches_at(buf@, pat@, k),
        },
{
    let n = pat.len();
    let len = buf.len();
    if n > len {
        return Err(Error::PatternNotFound);
    }
    let last = len - n;
    let mut off: usize = 0;
    while off <= last
        invariant
            n == pat@.len(),
            len == buf@.len(),
            n <= len,
            last == len - n,
            off <= last + 1,
            forall|k: int| 0 <= k < off ==> !matches_at(buf@, pat@, k),
        decreases last + 1 - off,
    {
        if check_at(buf, pat, off) {
            return Ok(off);
        }
        off += 1;
    }
    Err(Error::PatternNotFound)
}

/// A pattern made of wildcards alone matches at offset zero of any buffer
/// at least as long as the pattern. With the contract of `scan`, a scan for
/// such a pattern therefore returns offset zero.
pub proof fn lemma_all_wildcards_match_at_zero(buf: Seq<u8>, pat: Seq<PatByte>)
    requires
        pat.len() <= buf.len(),
        forall|j: int| 0 <= j < pat.len() ==> #[trigger] pat[j] is Wildcard,
    ensures
        matches_at(buf, pat, 0),
{
}

} // verus!
