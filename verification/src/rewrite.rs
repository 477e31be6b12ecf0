//! The executable rewriter: a naive left-to-right scan per rule, an
//! equality short-circuit for the host rounds, and the three rounds chained
//! so that each scans the previous round's output.

use vstd::prelude::*;

use crate::laws::lemma_equal_rule_is_noop;
use crate::model::{full_rewrite, loopback_ip, loopback_name, match_at, rewrite_once};
use crate::proofs::{lemma_match_shift, lemma_rewrite_once_absent, lemma_rewrite_once_step};

verus! {

/// The read-only configuration of one rewrite: the host bytes substituted
/// for both loopback spellings, and the target/replacement port pair. The
/// target port is a pattern and so must not be empty; the replacements may
/// be anything, the empty sequence included.
pub struct RewriteConfig {
    pub replacement_host: Vec<u8>,
    pub target_port: Vec<u8>,
    pub replacement_port: Vec<u8>,
}

impl RewriteConfig {
    /// The construction-time invariant: the one configurable pattern is
    /// non-empty. (The two host patterns are fixed and non-empty.)
    pub open spec fn wf(&self) -> bool {
        self.target_port@.len() >= 1
    }

    /// Builds a configuration, rejecting exactly the empty target-port
    /// pattern, whose match semantics would be undefined.
    pub fn new(
        replacement_host: Vec<u8>,
        target_port: Vec<u8>,
        replacement_port: Vec<u8>,
    ) -> (r: Option<RewriteConfig>)
        ensures
            match r {
                Some(c) => {
                    &&& c.wf()
                    &&& c.replacement_host@ == replacement_host@
                    &&& c.target_port@ == target_port@
                    &&& c.replacement_port@ == replacement_port@
                },
                None => target_port@.len() == 0,
            },
    {
        if target_port.len() == 0 {
            None
        } else {
            Some(RewriteConfig { replacement_host, target_port, replacement_port })
        }
    }
}

/// Byte-for-byte window test: does `pat` occur in `buf` at offset `i`?
fn is_match_at(buf: &Vec<u8>, pat: &Vec<u8>, i: usize) -> (r: bool)
    requires
        i + pat@.len() <= buf@.len(),
    ensures
        r == match_at(buf@, pat@, i as int),
{
    let mut t: usize = 0;
    while t < pat.len()
        invariant
            i + pat@.len() <= buf.len(),
            t <= pat@.len(),
            forall|u: int| 0 <= u < t ==> buf@[i + u] == #[trigger] pat@[u],
        decreases pat@.len() - t,
    {
        if buf[i + t] != pat[t] {
            assert(!match_at(buf@, pat@, i as int)) by {
                assert(buf@[i + t as int] != pat@[t as int]);
            }
            return false;
        }
        t = t + 1;
    }
    assert(match_at(buf@, pat@, i as int));
    true
}

/// The earliest occurrence of `pat` in `buf` at or after `from`, if any.
fn find_next(buf: &Vec<u8>, pat: &Vec<u8>, from: usize) -> (r: Option<usize>)
    requires
        pat@.len() >= 1,
        from <= buf@.len(),
    ensures
        match r {
            Some(p) => {
                &&& from <= p
                &&& match_at(buf@, pat@, p as int)
                &&& forall|j: int| from <= j < p ==> !match_at(buf@, pat@, j)
            },
            None => forall|j: int| from <= j ==> !match_at(buf@, pat@, j),
        },
{
    if buf.len() < pat.len() {
        return None;
    }
    let last = buf.len() - pat.len();
    let mut i = from;
    while i <= last
        invariant
            from <= i,
            pat@.len() >= 1,
            pat@.len() <= buf.len(),
            last == buf@.len() - pat@.len(),
            i <= buf@.len(),
            forall|j: int| from <= j < i ==> !match_at(buf@, pat@, j),
        decreases buf@.len() - i,
    {
        if is_match_at(buf, pat, i) {
            return Some(i);
        }
        i = i + 1;
    }
    assert forall|j: int| from <= j implies !match_at(buf@, pat@, j) by {
        if j >= i {
            assert(j + pat@.len() > buf@.len());
        }
    }
    None
}

/// Appends `src[lo..hi]` to `out`.
fn push_range(out: &mut Vec<u8>, src: &Vec<u8>, lo: usize, hi: usize)
    requires
        lo <= hi,
        hi <= src@.len(),
    ensures
        final(out)@ == old(out)@ + src@.subrange(lo as int, hi as int),
{
    let mut k: usize = lo;
    assert(out@ =~= old(out)@ + src@.subrange(lo as int, lo as int));
    while k < hi
        invariant
            lo <= k <= hi,
            hi <= src@.len(),
            out@ == old(out)@ + src@.subrange(lo as int, k as int),
        decreases hi - k,
    {
        out.push(src[k]);
        assert(out@ =~= old(out)@ + src@.subrange(lo as int, k + 1 as int));
        k = k + 1;
    }
}

/// Are two byte vectors equal, byte for byte?
fn eq_bytes(a: &Vec<u8>, b: &Vec<u8>) -> (r: bool)
    ensures
        r == (a@ == b@),
{
    if a.len() != b.len() {
        return false;
    }
    let mut k: usize = 0;
    while k < a.len()
        invariant
            a@.len() == b@.len(),
            k <= a@.len(),
            forall|u: int| 0 <= u < k ==> a@[u] == #[trigger] b@[u],
        decreases a@.len() - k,
    {
        if a[k] != b[k] {
            return false;
        }
        k = k + 1;
    }
    assert(a@ =~= b@);
    true
}

/// One full scanning pass: every non-overlapping occurrence of `pat` in
/// `buf`, found left to right, is replaced by `rep`; the scan resumes
/// immediately after each replacement.
pub fn replace_all(buf: &Vec<u8>, pat: &Vec<u8>, rep: &Vec<u8>) -> (out: Vec<u8>)
    requires
        pat@.len() >= 1,
    ensures
        out@ == rewrite_once(buf@, pat@, rep@),
{
    let mut out: Vec<u8> = Vec::new();
    let mut cursor: usize = 0;
    proof {
        assert(buf@.skip(0) =~= buf@);
        assert(out@ + buf@.skip(0) =~= buf@);
    }
    loop
        invariant_except_break
            pat@.len() >= 1,
            cursor <= buf.len(),
            rewrite_once(buf@, pat@, rep@) == out@ + rewrite_once(
                buf@.skip(cursor as int),
                pat@,
                rep@,
            ),
        ensures
            out@ == rewrite_once(buf@, pat@, rep@),
        decreases buf@.len() - cursor,
    {
        let ghost prev = out@;
        let ghost tail = buf@.skip(cursor as int);
        match find_next(buf, pat, cursor) {
            Some(p) => {
                push_range(&mut out, buf, cursor, p);
                push_range(&mut out, rep, 0, rep.len());
                proof {
                    let q = p - cursor;
                    assert forall|j: int| 0 <= j < q implies !match_at(tail, pat@, j) by {
                        lemma_match_shift(buf@, pat@, cursor as int, j);
                    }
                    lemma_match_shift(buf@, pat@, cursor as int, q);
                    assert(match_at(tail, pat@, q));
                    lemma_rewrite_once_step(tail, pat@, rep@, q);
                    assert(tail.subrange(0, q) =~= buf@.subrange(cursor as int, p as int));
                    assert(tail.skip(q + pat@.len()) =~= buf@.skip(p + pat@.len()));
                    assert(rep@.subrange(0, rep@.len() as int) =~= rep@);
                    assert(out@ =~= prev + tail.subrange(0, q) + rep@);
                    assert(prev + tail.subrange(0, q) + rep@ + rewrite_once(
                        buf@.skip(p + pat@.len()),
                        pat@,
                        rep@,
                    ) =~= prev + (tail.subrange(0, q) + rep@ + rewrite_once(
                        buf@.skip(p + pat@.len()),
                        pat@,
                        rep@,
                    )));
                }
                cursor = p + pat.len();
            },
            None => {
                push_range(&mut out, buf, cursor, buf.len());
                proof {
                    assert forall|j: int| !match_at(tail, pat@, j) by {
                        if 0 <= j {
                            lemma_match_shift(buf@, pat@, cursor as int, j);
                        }
                    }
                    lemma_rewrite_once_absent(tail, pat@, rep@);
                    assert(buf@.subrange(cursor as int, buf@.len() as int) =~= tail);
                }
                break ;
            },
        }
    }
    out
}

/// One rule of a host round: skipped entirely when the pattern equals the
/// replacement, otherwise a full scanning pass. Either way the result is
/// exactly what the pass would produce.
pub fn apply_rule(buf: &Vec<u8>, pat: &Vec<u8>, rep: &Vec<u8>) -> (out: Vec<u8>)
    requires
        pat@.len() >= 1,
    ensures
        out@ == rewrite_once(buf@, pat@, rep@),
{
    if eq_bytes(pat, rep) {
        proof {
            lemma_equal_rule_is_noop(buf@, pat@);
        }
        let mut out: Vec<u8> = Vec::new();
        push_range(&mut out, buf, 0, buf.len());
        assert(out@ =~= buf@);
        out
    } else {
        replace_all(buf, pat, rep)
    }
}

/// The numeric loopback host, `127.0.0.1`, as a byte vector.
fn loopback_ip_bytes() -> (r: Vec<u8>)
    ensures
        r@ == loopback_ip(),
{
    let v: Vec<u8> = vec![49u8, 50u8, 55u8, 46u8, 48u8, 46u8, 48u8, 46u8, 49u8];
    proof {
        assert(v@ =~= loopback_ip());
    }
    v
}

/// The loopback hostname alias, `localhost`, as a byte vector.
fn loopback_name_bytes() -> (r: Vec<u8>)
    ensures
        r@ == loopback_name(),
{
    let v: Vec<u8> = vec![108u8, 111u8, 99u8, 97u8, 108u8, 104u8, 111u8, 115u8, 116u8];
    proof {
        assert(v@ =~= loopback_name());
    }
    v
}

/// The whole rewrite over a plain byte buffer: the two host rounds in their
/// fixed order (each skipped when its pattern equals the replacement host),
/// then the port round, each round scanning the previous round's output.
pub fn rewrite_buffer(input: &Vec<u8>, config: &RewriteConfig) -> (out: Vec<u8>)
    requires
        config.wf(),
    ensures
        out@ == full_rewrite(
            input@,
            config.replacement_host@,
            config.target_port@,
            config.replacement_port@,
        ),
{
    let ip = loopback_ip_bytes();
    let name = loopback_name_bytes();
    let after_ip = apply_rule(input, &ip, &config.replacement_host);
    let after_hosts = apply_rule(&after_ip, &name, &config.replacement_host);
    replace_all(&after_hosts, &config.target_port, &config.replacement_port)
}

} // verus!
