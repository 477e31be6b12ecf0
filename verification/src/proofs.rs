//! Supporting lemmas about `match_at` and `rewrite_once`: how matches move
//! under skipping and concatenation, how a pass unfolds at its first match,
//! and the two inductions behind the elimination laws.

use vstd::prelude::*;

use crate::model::{match_at, never_rematches, overlap_compat, rewrite_once};

verus! {

/// A match inside the suffix `s.skip(k)` is a match inside `s`, shifted by
/// `k`, and the other way round.
pub proof fn lemma_match_shift(s: Seq<u8>, pat: Seq<u8>, k: int, j: int)
    requires
        0 <= k <= s.len(),
        0 <= j,
    ensures
        match_at(s.skip(k), pat, j) == match_at(s, pat, k + j),
{
    let u = s.skip(k);
    assert(u.len() == s.len() - k);
    if match_at(u, pat, j) {
        assert forall|t: int| 0 <= t < pat.len() implies s[(k + j) + t] == #[trigger] pat[t] by {
            assert(u[j + t] == pat[t]);
            assert(u[j + t] == s[k + (j + t)]);
        }
        assert(match_at(s, pat, k + j));
    }
    if match_at(s, pat, k + j) {
        assert forall|t: int| 0 <= t < pat.len() implies u[j + t] == #[trigger] pat[t] by {
            assert(s[(k + j) + t] == pat[t]);
            assert(u[j + t] == s[k + (j + t)]);
        }
        assert(match_at(u, pat, j));
    }
}

/// A window that lies entirely inside the left part of a concatenation
/// matches there exactly when it matches in the whole.
pub proof fn lemma_match_prefix(a: Seq<u8>, b: Seq<u8>, pat: Seq<u8>, j: int)
    requires
        0 <= j,
        j + pat.len() <= a.len(),
    ensures
        match_at(a + b, pat, j) == match_at(a, pat, j),
{
    let w = a + b;
    if match_at(w, pat, j) {
        assert forall|t: int| 0 <= t < pat.len() implies a[j + t] == #[trigger] pat[t] by {
            assert(w[j + t] == pat[t]);
            assert(w[j + t] == a[j + t]);
        }
        assert(match_at(a, pat, j));
    }
    if match_at(a, pat, j) {
        assert forall|t: int| 0 <= t < pat.len() implies w[j + t] == #[trigger] pat[t] by {
            assert(a[j + t] == pat[t]);
            assert(w[j + t] == a[j + t]);
        }
        assert(match_at(w, pat, j));
    }
}

/// A window that starts at or after the seam of a concatenation matches in
/// the whole exactly when it matches in the right part.
pub proof fn lemma_match_suffix(a: Seq<u8>, b: Seq<u8>, pat: Seq<u8>, j: int)
    requires
        a.len() <= j,
    ensures
        match_at(a + b, pat, j) == match_at(b, pat, j - a.len()),
{
    let w = a + b;
    let m = j - a.len();
    if match_at(w, pat, j) {
        assert forall|t: int| 0 <= t < pat.len() implies b[m + t] == #[trigger] pat[t] by {
            assert(w[j + t] == pat[t]);
            assert(w[j + t] == b[(j + t) - a.len()]);
        }
        assert(match_at(b, pat, m));
    }
    if match_at(b, pat, m) {
        assert forall|t: int| 0 <= t < pat.len() implies w[j + t] == #[trigger] pat[t] by {
            assert(b[m + t] == pat[t]);
            assert(w[j + t] == b[(j + t) - a.len()]);
        }
        assert(match_at(w, pat, j));
    }
}

/// A match that overlaps the inserted middle part of `x + rep + tail`
/// exhibits exactly the overlap that `never_rematches` rules out.
pub proof fn lemma_overlap_from_match(
    x: Seq<u8>,
    rep: Seq<u8>,
    tail: Seq<u8>,
    pat: Seq<u8>,
    j: int,
)
    requires
        match_at(x + rep + tail, pat, j),
        j + pat.len() > x.len(),
        j < x.len() + rep.len(),
    ensures
        overlap_compat(pat, rep, j - x.len()),
{
    let w = x + rep + tail;
    let k = j - x.len();
    assert forall|t: int| 0 <= t < rep.len() && k <= t < k + pat.len() implies rep[t] == pat[t - k]
    by {
        let u = x.len() + t;
        assert(w[j + (u - j)] == pat[u - j]);
        assert(w[u] == (x + rep)[u]);
        assert((x + rep)[u] == rep[t]);
    }
    assert(overlap_compat(pat, rep, k));
}

/// When no occurrence of `pat` exists anywhere in `s`, a pass over `s` is
/// the identity.
pub proof fn lemma_rewrite_once_absent(s: Seq<u8>, pat: Seq<u8>, rep: Seq<u8>)
    requires
        pat.len() >= 1,
        forall|j: int| !match_at(s, pat, j),
    ensures
        rewrite_once(s, pat, rep) == s,
    decreases s.len(),
{
    if s.len() < pat.len() {
    } else {
        assert(!match_at(s, pat, 0));
        assert forall|j: int| !match_at(s.skip(1), pat, j) by {
            if 0 <= j {
                lemma_match_shift(s, pat, 1, j);
            }
        }
        lemma_rewrite_once_absent(s.skip(1), pat, rep);
        assert(s.subrange(0, 1) + s.skip(1) =~= s);
    }
}

/// A pass unfolds at the first match: with the earliest occurrence at `q`,
/// the output is the untouched prefix, then the replacement, then the pass
/// over what follows the occurrence.
pub proof fn lemma_rewrite_once_step(s: Seq<u8>, pat: Seq<u8>, rep: Seq<u8>, q: int)
    requires
        pat.len() >= 1,
        match_at(s, pat, q),
        forall|j: int| 0 <= j < q ==> !match_at(s, pat, j),
    ensures
        rewrite_once(s, pat, rep) == s.subrange(0, q) + rep + rewrite_once(
            s.skip(q + pat.len()),
            pat,
            rep,
        ),
    decreases q,
{
    let rest = rewrite_once(s.skip(q + pat.len()), pat, rep);
    if q == 0 {
        assert(s.len() >= pat.len());
        assert(rewrite_once(s, pat, rep) == rep + rewrite_once(s.skip(pat.len() as int), pat, rep));
        assert(s.subrange(0, 0) + rep + rest =~= rep + rest);
    } else {
        assert(!match_at(s, pat, 0));
        assert(s.len() >= pat.len());
        lemma_match_shift(s, pat, 1, q - 1);
        assert(match_at(s.skip(1), pat, q - 1));
        assert forall|j: int| 0 <= j < q - 1 implies !match_at(s.skip(1), pat, j) by {
            lemma_match_shift(s, pat, 1, j);
        }
        lemma_rewrite_once_step(s.skip(1), pat, rep, q - 1);
        assert(s.skip(1).subrange(0, q - 1) =~= s.subrange(1, q));
        assert(s.skip(1).skip(q - 1 + pat.len()) =~= s.skip(q + pat.len()));
        assert(s.subrange(0, 1) + (s.subrange(1, q) + rep + rest) =~= s.subrange(0, q) + rep
            + rest);
    }
}

/// The induction behind full elimination. With a left context `x` in which
/// no occurrence of `pat` starts, the pass over `s` yields a whole,
/// `x + rewrite_once(s, pat, rep)`, in which no occurrence of `pat` starts
/// anywhere, because every candidate window would have to overlap an
/// inserted replacement.
pub proof fn lemma_elim_aux(x: Seq<u8>, s: Seq<u8>, pat: Seq<u8>, rep: Seq<u8>)
    requires
        pat.len() >= 1,
        never_rematches(pat, rep),
        forall|j: int| 0 <= j < x.len() ==> !match_at(x + s, pat, j),
    ensures
        forall|j: int| !match_at(x + rewrite_once(s, pat, rep), pat, j),
    decreases s.len(),
{
    if s.len() < pat.len() {
        assert(rewrite_once(s, pat, rep) == s);
        assert forall|j: int| !match_at(x + rewrite_once(s, pat, rep), pat, j) by {
            if x.len() <= j {
                lemma_match_suffix(x, s, pat, j);
            }
        }
    } else if match_at(s, pat, 0) {
        let x2 = x + rep;
        let s2 = s.skip(pat.len() as int);
        assert forall|j: int| 0 <= j < x2.len() implies !match_at(x2 + s2, pat, j) by {
            if j + pat.len() <= x.len() {
                lemma_match_prefix(x2, s2, pat, j);
                lemma_match_prefix(x, rep, pat, j);
                lemma_match_prefix(x, s, pat, j);
            } else {
                if match_at(x2 + s2, pat, j) {
                    lemma_overlap_from_match(x, rep, s2, pat, j);
                    assert(overlap_compat(pat, rep, j - x.len()));
                    assert(false);
                }
            }
        }
        lemma_elim_aux(x2, s2, pat, rep);
        assert(x + rewrite_once(s, pat, rep) =~= x2 + rewrite_once(s2, pat, rep));
        assert forall|j: int| !match_at(x + rewrite_once(s, pat, rep), pat, j) by {
            assert(!match_at(x2 + rewrite_once(s2, pat, rep), pat, j));
        }
    } else {
        let x3 = x + s.subrange(0, 1);
        let s3 = s.skip(1);
        assert(x3 + s3 =~= x + s);
        assert forall|j: int| 0 <= j < x3.len() implies !match_at(x3 + s3, pat, j) by {
            if j == x.len() {
                lemma_match_suffix(x, s, pat, j);
                assert(!match_at(s, pat, 0));
            }
        }
        lemma_elim_aux(x3, s3, pat, rep);
        assert(x + rewrite_once(s, pat, rep) =~= x3 + rewrite_once(s3, pat, rep));
        assert forall|j: int| !match_at(x + rewrite_once(s, pat, rep), pat, j) by {
            assert(!match_at(x3 + rewrite_once(s3, pat, rep), pat, j));
        }
    }
}

/// The induction behind no-reintroduction. A pattern `q` that occurs
/// nowhere in `x + s` and can never overlap an inserted copy of `rep`
/// still occurs nowhere after the pass.
pub proof fn lemma_preserve_aux(x: Seq<u8>, s: Seq<u8>, pat: Seq<u8>, rep: Seq<u8>, q: Seq<u8>)
    requires
        pat.len() >= 1,
        q.len() >= 1,
        never_rematches(q, rep),
        forall|j: int| !match_at(x + s, q, j),
    ensures
        forall|j: int| !match_at(x + rewrite_once(s, pat, rep), q, j),
    decreases s.len(),
{
    if s.len() < pat.len() {
        assert(rewrite_once(s, pat, rep) == s);
        assert forall|j: int| !match_at(x + rewrite_once(s, pat, rep), q, j) by {
            assert(!match_at(x + s, q, j));
        }
    } else if match_at(s, pat, 0) {
        let x2 = x + rep;
        let s2 = s.skip(pat.len() as int);
        assert forall|j: int| !match_at(x2 + s2, q, j) by {
            if 0 <= j {
                if j + q.len() <= x.len() {
                    lemma_match_prefix(x2, s2, q, j);
                    lemma_match_prefix(x, rep, q, j);
                    lemma_match_prefix(x, s, q, j);
                } else if j < x.len() + rep.len() {
                    if match_at(x2 + s2, q, j) {
                        lemma_overlap_from_match(x, rep, s2, q, j);
                        assert(overlap_compat(q, rep, j - x.len()));
                        assert(false);
                    }
                } else {
                    let m = j - x2.len();
                    lemma_match_suffix(x2, s2, q, j);
                    lemma_match_shift(s, q, pat.len() as int, m);
                    lemma_match_suffix(x, s, q, x.len() + pat.len() + m);
                    assert(!match_at(x + s, q, x.len() + pat.len() + m));
                }
            }
        }
        lemma_preserve_aux(x2, s2, pat, rep, q);
        assert(x + rewrite_once(s, pat, rep) =~= x2 + rewrite_once(s2, pat, rep));
        assert forall|j: int| !match_at(x + rewrite_once(s, pat, rep), q, j) by {
            assert(!match_at(x2 + rewrite_once(s2, pat, rep), q, j));
        }
    } else {
        let x3 = x + s.subrange(0, 1);
        let s3 = s.skip(1);
        assert(x3 + s3 =~= x + s);
        lemma_preserve_aux(x3, s3, pat, rep, q);
        assert(x + rewrite_once(s, pat, rep) =~= x3 + rewrite_once(s3, pat, rep));
        assert forall|j: int| !match_at(x + rewrite_once(s, pat, rep), q, j) by {
            assert(!match_at(x3 + rewrite_once(s3, pat, rep), q, j));
        }
    }
}

} // verus!
