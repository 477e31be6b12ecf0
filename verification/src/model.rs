//! The mathematical model of the rewrite: what it means for a pattern to
//! occur in a byte sequence, and what one left-to-right replacement pass
//! produces.

use vstd::prelude::*;

verus! {

/// `pat` occurs in `s` at offset `i`: the window of `pat.len()` bytes of `s`
/// starting at `i` agrees with `pat` byte for byte.
pub open spec fn match_at(s: Seq<u8>, pat: Seq<u8>, i: int) -> bool {
    &&& 0 <= i
    &&& i + pat.len() <= s.len()
    &&& forall|t: int| 0 <= t < pat.len() ==> s[i + t] == #[trigger] pat[t]
}

/// `pat` occurs somewhere in `s`.
pub open spec fn has_match(s: Seq<u8>, pat: Seq<u8>) -> bool {
    exists|i: int| match_at(s, pat, i)
}

/// One left-to-right, non-overlapping pass over `s`: every occurrence of
/// `pat` is replaced by `rep`, and the scan resumes immediately after the
/// replaced bytes, so a later match can never begin inside an earlier one.
/// An empty pattern has no meaningful match semantics; the pass is then the
/// identity, and every caller excludes that case by contract.
pub open spec fn rewrite_once(s: Seq<u8>, pat: Seq<u8>, rep: Seq<u8>) -> Seq<u8>
    decreases s.len(),
{
    if pat.len() == 0 || s.len() < pat.len() {
        s
    } else if match_at(s, pat, 0) {
        rep + rewrite_once(s.skip(pat.len() as int), pat, rep)
    } else {
        s.subrange(0, 1) + rewrite_once(s.skip(1), pat, rep)
    }
}

/// How many occurrences the pass over `s` replaces.
pub open spec fn match_count(s: Seq<u8>, pat: Seq<u8>) -> nat
    decreases s.len(),
{
    if pat.len() == 0 || s.len() < pat.len() {
        0
    } else if match_at(s, pat, 0) {
        1 + match_count(s.skip(pat.len() as int), pat)
    } else {
        match_count(s.skip(1), pat)
    }
}

/// A copy of `pat` could lie at offset `k` relative to the start of an
/// inserted copy of `rep`, overlapping it and agreeing with it on every
/// position both cover (`k` may be negative: the copy then starts before
/// `rep` does).
pub open spec fn overlap_compat(pat: Seq<u8>, rep: Seq<u8>, k: int) -> bool {
    &&& k < rep.len()
    &&& k + pat.len() > 0
    &&& forall|t: int| 0 <= t < rep.len() && k <= t < k + pat.len() ==> rep[t] == pat[t - k]
}

/// No occurrence of `pat` can ever overlap an inserted copy of `rep`,
/// whatever bytes surround it. This is how "the replacement text never
/// re-matches the pattern" is said precisely; it implies `pat != rep`.
pub open spec fn never_rematches(pat: Seq<u8>, rep: Seq<u8>) -> bool {
    forall|k: int| !overlap_compat(pat, rep, k)
}

/// The numeric loopback host, `127.0.0.1`, as bytes.
pub open spec fn loopback_ip() -> Seq<u8> {
    seq![49u8, 50u8, 55u8, 46u8, 48u8, 46u8, 48u8, 46u8, 49u8]
}

/// The loopback hostname alias, `localhost`, as bytes.
pub open spec fn loopback_name() -> Seq<u8> {
    seq![108u8, 111u8, 99u8, 97u8, 108u8, 104u8, 111u8, 115u8, 116u8]
}

/// The two host rounds, in their fixed order: first the numeric loopback
/// host, then the hostname alias, both replaced by `host`. The second round
/// scans the first round's output.
pub open spec fn host_rounds(s: Seq<u8>, host: Seq<u8>) -> Seq<u8> {
    rewrite_once(rewrite_once(s, loopback_ip(), host), loopback_name(), host)
}

/// The whole rewrite: both host rounds, then the port round over their
/// cumulative output.
pub open spec fn full_rewrite(
    s: Seq<u8>,
    host: Seq<u8>,
    target_port: Seq<u8>,
    replacement_port: Seq<u8>,
) -> Seq<u8> {
    rewrite_once(host_rounds(s, host), target_port, replacement_port)
}

} // verus!
