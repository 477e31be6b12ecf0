//! The laws of the rewriter, stated over the model and proved once and for
//! all: skipping an equal rule changes nothing, an absent pattern leaves the
//! buffer untouched, a pass eliminates its pattern, lengths add up, and the
//! whole rewrite is idempotent when no replacement can re-create a pattern.

use vstd::prelude::*;

use crate::model::{
    full_rewrite, has_match, host_rounds, loopback_ip, loopback_name, match_at, match_count,
    never_rematches, rewrite_once,
};
use crate::proofs::{lemma_elim_aux, lemma_preserve_aux, lemma_rewrite_once_absent};

verus! {

/// A rule whose replacement equals its pattern leaves any buffer
/// byte-for-byte unchanged, so skipping such a rule is sound.
pub proof fn lemma_equal_rule_is_noop(s: Seq<u8>, pat: Seq<u8>)
    requires
        pat.len() >= 1,
    ensures
        rewrite_once(s, pat, pat) == s,
    decreases s.len(),
{
    if s.len() < pat.len() {
    } else if match_at(s, pat, 0) {
        lemma_equal_rule_is_noop(s.skip(pat.len() as int), pat);
        assert forall|u: int| 0 <= u < pat.len() implies s[u] == pat[u] by {
            assert(s[0 + u] == pat[u]);
        }
        assert(pat + s.skip(pat.len() as int) =~= s);
    } else {
        lemma_equal_rule_is_noop(s.skip(1), pat);
        assert(s.subrange(0, 1) + s.skip(1) =~= s);
    }
}

/// A pass whose pattern occurs nowhere in the buffer returns the buffer
/// unchanged.
pub proof fn lemma_absent_is_identity(s: Seq<u8>, pat: Seq<u8>, rep: Seq<u8>)
    requires
        pat.len() >= 1,
        !has_match(s, pat),
    ensures
        rewrite_once(s, pat, rep) == s,
{
    assert forall|j: int| !match_at(s, pat, j) by {
        if match_at(s, pat, j) {
            assert(has_match(s, pat));
        }
    }
    lemma_rewrite_once_absent(s, pat, rep);
}

/// Absence of the targets: an input holding neither loopback spelling comes
/// out of the two host rounds unchanged.
pub proof fn lemma_host_rounds_absent(s: Seq<u8>, host: Seq<u8>)
    requires
        !has_match(s, loopback_ip()),
        !has_match(s, loopback_name()),
    ensures
        host_rounds(s, host) == s,
{
    assert(loopback_ip().len() == 9);
    assert(loopback_name().len() == 9);
    lemma_absent_is_identity(s, loopback_ip(), host);
    lemma_absent_is_identity(s, loopback_name(), host);
}

/// Full elimination: when the replacement can never overlap an occurrence
/// of the pattern, the pass's output holds no occurrence of the pattern at
/// all.
pub proof fn lemma_full_elimination(s: Seq<u8>, pat: Seq<u8>, rep: Seq<u8>)
    requires
        pat.len() >= 1,
        never_rematches(pat, rep),
    ensures
        !has_match(rewrite_once(s, pat, rep), pat),
{
    lemma_elim_aux(Seq::empty(), s, pat, rep);
    assert(Seq::<u8>::empty() + rewrite_once(s, pat, rep) =~= rewrite_once(s, pat, rep));
    if has_match(rewrite_once(s, pat, rep), pat) {
        let i = choose|i: int| match_at(rewrite_once(s, pat, rep), pat, i);
        assert(!match_at(Seq::<u8>::empty() + rewrite_once(s, pat, rep), pat, i));
        assert(false);
    }
}

/// A pass cannot create an occurrence of a pattern `q` that the buffer did
/// not already hold, provided `q` can never overlap the inserted
/// replacement.
pub proof fn lemma_no_reintroduction(s: Seq<u8>, pat: Seq<u8>, rep: Seq<u8>, q: Seq<u8>)
    requires
        pat.len() >= 1,
        q.len() >= 1,
        never_rematches(q, rep),
        !has_match(s, q),
    ensures
        !has_match(rewrite_once(s, pat, rep), q),
{
    assert(Seq::<u8>::empty() + s =~= s);
    assert forall|j: int| !match_at(Seq::<u8>::empty() + s, q, j) by {
        if match_at(s, q, j) {
            assert(has_match(s, q));
        }
    }
    lemma_preserve_aux(Seq::empty(), s, pat, rep, q);
    assert(Seq::<u8>::empty() + rewrite_once(s, pat, rep) =~= rewrite_once(s, pat, rep));
    if has_match(rewrite_once(s, pat, rep), q) {
        let i = choose|i: int| match_at(rewrite_once(s, pat, rep), q, i);
        assert(!match_at(Seq::<u8>::empty() + rewrite_once(s, pat, rep), q, i));
        assert(false);
    }
}

/// Length accounting: a pass grows the buffer by the number of replaced
/// occurrences times the difference between replacement and pattern length.
pub proof fn lemma_length_accounting(s: Seq<u8>, pat: Seq<u8>, rep: Seq<u8>)
    requires
        pat.len() >= 1,
    ensures
        rewrite_once(s, pat, rep).len() == s.len() + match_count(s, pat) * (
        rep.len() as int - pat.len() as int),
    decreases s.len(),
{
    let d = rep.len() as int - pat.len() as int;
    if s.len() < pat.len() {
        assert(match_count(s, pat) == 0);
    } else if match_at(s, pat, 0) {
        let s2 = s.skip(pat.len() as int);
        lemma_length_accounting(s2, pat, rep);
        let c2 = match_count(s2, pat);
        assert(match_count(s, pat) == 1 + c2);
        assert((1 + c2) * d == d + c2 * d) by (nonlinear_arith);
    } else {
        lemma_length_accounting(s.skip(1), pat, rep);
        assert(match_count(s, pat) == match_count(s.skip(1), pat));
    }
}

/// After the full rewrite no occurrence of either loopback spelling nor of
/// the target port remains, provided no replacement can re-create any of
/// them.
pub proof fn lemma_full_rewrite_eliminates(
    s: Seq<u8>,
    host: Seq<u8>,
    target_port: Seq<u8>,
    replacement_port: Seq<u8>,
)
    requires
        target_port.len() >= 1,
        never_rematches(loopback_ip(), host),
        never_rematches(loopback_name(), host),
        never_rematches(target_port, replacement_port),
        never_rematches(loopback_ip(), replacement_port),
        never_rematches(loopback_name(), replacement_port),
    ensures
        !has_match(full_rewrite(s, host, target_port, replacement_port), loopback_ip()),
        !has_match(full_rewrite(s, host, target_port, replacement_port), loopback_name()),
        !has_match(full_rewrite(s, host, target_port, replacement_port), target_port),
{
    assert(loopback_ip().len() == 9);
    assert(loopback_name().len() == 9);
    let t1 = rewrite_once(s, loopback_ip(), host);
    let t2 = rewrite_once(t1, loopback_name(), host);
    lemma_full_elimination(s, loopback_ip(), host);
    lemma_no_reintroduction(t1, loopback_name(), host, loopback_ip());
    lemma_no_reintroduction(t2, target_port, replacement_port, loopback_ip());
    lemma_full_elimination(t1, loopback_name(), host);
    lemma_no_reintroduction(t2, target_port, replacement_port, loopback_name());
    lemma_full_elimination(t2, target_port, replacement_port);
}

/// Idempotence: when no replacement can re-create any pattern, applying the
/// full rewrite twice yields what applying it once yields.
pub proof fn lemma_full_rewrite_idempotent(
    s: Seq<u8>,
    host: Seq<u8>,
    target_port: Seq<u8>,
    replacement_port: Seq<u8>,
)
    requires
        target_port.len() >= 1,
        never_rematches(loopback_ip(), host),
        never_rematches(loopback_name(), host),
        never_rematches(target_port, replacement_port),
        never_rematches(loopback_ip(), replacement_port),
        never_rematches(loopback_name(), replacement_port),
    ensures
        full_rewrite(
            full_rewrite(s, host, target_port, replacement_port),
            host,
            target_port,
            replacement_port,
        ) == full_rewrite(s, host, target_port, replacement_port),
{
    assert(loopback_ip().len() == 9);
    assert(loopback_name().len() == 9);
    let out = full_rewrite(s, host, target_port, replacement_port);
    lemma_full_rewrite_eliminates(s, host, target_port, replacement_port);
    lemma_absent_is_identity(out, loopback_ip(), host);
    lemma_absent_is_identity(out, loopback_name(), host);
    lemma_absent_is_identity(out, target_port, replacement_port);
}

/// Empty input: the full rewrite of the empty buffer is the empty buffer,
/// whatever the configuration.
pub proof fn lemma_empty_input(host: Seq<u8>, target_port: Seq<u8>, replacement_port: Seq<u8>)
    requires
        target_port.len() >= 1,
    ensures
        full_rewrite(Seq::empty(), host, target_port, replacement_port) == Seq::<u8>::empty(),
{
    assert(loopback_ip().len() == 9);
    assert(loopback_name().len() == 9);
    assert(rewrite_once(Seq::<u8>::empty(), loopback_ip(), host) == Seq::<u8>::empty());
    assert(rewrite_once(Seq::<u8>::empty(), loopback_name(), host) == Seq::<u8>::empty());
    assert(rewrite_once(Seq::<u8>::empty(), target_port, replacement_port) == Seq::<u8>::empty());
}

} // verus!
