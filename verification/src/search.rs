//! Substring scanner for the session buffer: milestone patterns, the probe's
//! prompt marker and its fault signature are all found with it.

use vstd::prelude::*;

verus! {

/// The needle `n` occurs in the haystack `h` at position `i`.
pub open spec fn matches_at(h: Seq<u8>, n: Seq<u8>, i: int) -> bool {
    0 <= i && i + n.len() <= h.len() && h.subrange(i, i + n.len() as int) == n
}

/// The needle `n` occurs somewhere in the haystack `h`.
pub open spec fn has_substring(h: Seq<u8>, n: Seq<u8>) -> bool {
    exists|i: int| matches_at(h, n, i)
}

/// Growing the haystack at the end preserves every occurrence: once a
/// milestone pattern is in the session buffer, it stays there.
pub proof fn lemma_has_substring_app(h: Seq<u8>, n: Seq<u8>, tail: Seq<u8>)
    requires
        has_substring(h, n),
    ensures
        has_substring(h + tail, n),
{
    let i = choose|i: int| matches_at(h, n, i);
    assert((h + tail).subrange(i, i + n.len() as int) =~= h.subrange(i, i + n.len() as int));
    assert(matches_at(h + tail, n, i));
}

/// Scans `h[from..]` for the needle `n`, reporting whether it occurs there.
pub fn find_substr_from(h: &Vec<u8>, from: usize, n: &Vec<u8>) -> (r: bool)
    requires
        from <= h@.len(),
    ensures
        r == has_substring(h@.skip(from as int), n@),
{
    let hl = h.len();
    let nl = n.len();
    if nl > hl - from {
        proof {
            assert forall|k: int| !matches_at(h@.skip(from as int), n@, k) by {
                assert(h@.skip(from as int).len() == hl - from);
            }
        }
        return false;
    }
    let mut i: usize = from;
    loop
        invariant
            from <= i <= hl - nl + 1,
            nl <= hl - from,
            hl == h@.len(),
            nl == n@.len(),
            forall|j: int| from <= j < i ==> !matches_at(h@, n@, j),
        ensures
            i == hl - nl + 1,
            forall|j: int| from <= j < i ==> !matches_at(h@, n@, j),
        decreases hl - nl - i + 1,
    {
        if i > hl - nl {
            break ;
        }
        let mut j: usize = 0;
        let mut ok = true;
        while j < nl
            invariant
                0 <= j <= nl,
                from <= i <= hl - nl,
                hl == h@.len(),
                nl == n@.len(),
                ok <==> (forall|t: int| 0 <= t < j ==> h@[i + t] == n@[t]),
            decreases nl - j,
        {
            if h[i + j] != n[j] {
                ok = false;
            }
            j = j + 1;
        }
        if ok {
            proof {
                assert(h@.skip(from as int).subrange(
                    i - from,
                    i - from + n@.len() as int,
                ) =~= n@);
                assert(matches_at(h@.skip(from as int), n@, i - from));
            }
            return true;
        }
        proof {
            let t = choose|t: int| 0 <= t < nl && h@[i + t] != n@[t];
            assert(!matches_at(h@, n@, i as int)) by {
                if matches_at(h@, n@, i as int) {
                    assert(h@.subrange(i as int, i + n@.len() as int)[t] == n@[t]);
                }
            }
        }
        i = i + 1;
    }
    proof {
        assert forall|k: int| !matches_at(h@.skip(from as int), n@, k) by {
            if matches_at(h@.skip(from as int), n@, k) {
                assert(h@.subrange(from + k, from + k + n@.len() as int) =~= h@.skip(
                    from as int,
                ).subrange(k, k + n@.len() as int));
                assert(matches_at(h@, n@, from + k));
            }
        }
    }
    false
}

} // verus!
