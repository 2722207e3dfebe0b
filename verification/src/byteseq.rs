//! Byte-sequence utilities: first occurrence of a pattern, splitting on a
//! separator, and lexicographic comparison.

use vstd::prelude::*;

verus! {

/// The first position `>= i` at which the (nonempty) pattern `pat` occurs
/// in `s`.
pub open spec fn find_sub(s: Seq<u8>, pat: Seq<u8>, i: int) -> Option<int>
    decreases s.len() - i,
{
    if pat.len() == 0 || i < 0 || i + pat.len() > s.len() {
        None
    } else if s.subrange(i, i + pat.len() as int) == pat {
        Some(i)
    } else {
        find_sub(s, pat, i + 1)
    }
}

/// A found occurrence lies between the start position and the end.
pub proof fn lemma_find_sub_range(s: Seq<u8>, pat: Seq<u8>, i: int)
    requires
        find_sub(s, pat, i) is Some,
    ensures
        i <= find_sub(s, pat, i)->Some_0,
        find_sub(s, pat, i)->Some_0 + pat.len() <= s.len(),
    decreases s.len() - i,
{
    if !(pat.len() == 0 || i < 0 || i + pat.len() > s.len()) && s.subrange(
        i,
        i + pat.len() as int,
    ) != pat {
        lemma_find_sub_range(s, pat, i + 1);
    }
}

/// `s` split on every occurrence of `pat`, left to right.
pub open spec fn split_sub(s: Seq<u8>, pat: Seq<u8>) -> Seq<Seq<u8>>
    decreases s.len(),
    via split_sub_decreases
{
    if pat.len() == 0 {
        seq![s]
    } else {
        match find_sub(s, pat, 0) {
            None => seq![s],
            Some(p) => seq![s.subrange(0, p)] + split_sub(s.skip(p + pat.len() as int), pat),
        }
    }
}

#[via_fn]
proof fn split_sub_decreases(s: Seq<u8>, pat: Seq<u8>) {
    if pat.len() > 0 && find_sub(s, pat, 0) is Some {
        lemma_find_sub_range(s, pat, 0);
    }
}

/// Whether `a` precedes `b` in strict lexicographic byte order.
pub open spec fn lex_lt(a: Seq<u8>, b: Seq<u8>) -> bool
    decreases a.len(),
{
    if b.len() == 0 {
        false
    } else if a.len() == 0 {
        true
    } else if a[0] < b[0] {
        true
    } else if a[0] > b[0] {
        false
    } else {
        lex_lt(a.drop_first(), b.drop_first())
    }
}

/// Lexicographic byte order is strict: no sequence precedes itself.
pub proof fn lemma_lex_irrefl(a: Seq<u8>)
    ensures
        !lex_lt(a, a),
    decreases a.len(),
{
    if a.len() > 0 {
        lemma_lex_irrefl(a.drop_first());
    }
}

/// Lexicographic byte order is asymmetric.
pub proof fn lemma_lex_asym(a: Seq<u8>, b: Seq<u8>)
    requires
        lex_lt(a, b),
    ensures
        !lex_lt(b, a),
    decreases a.len(),
{
    if a.len() > 0 && b.len() > 0 && a[0] == b[0] {
        lemma_lex_asym(a.drop_first(), b.drop_first());
    }
}

/// Lexicographic byte order is total: two sequences are ordered one way or
/// the other, or they are equal.
pub proof fn lemma_lex_total(a: Seq<u8>, b: Seq<u8>)
    ensures
        lex_lt(a, b) || lex_lt(b, a) || a == b,
    decreases a.len(),
{
    if a.len() > 0 && b.len() > 0 && a[0] == b[0] {
        lemma_lex_total(a.drop_first(), b.drop_first());
        if a.drop_first() == b.drop_first() {
            assert forall|k: int| 0 <= k < a.len() implies a[k] == b[k] by {
                if k > 0 {
                    assert(a[k] == a.drop_first()[k - 1]);
                    assert(b[k] == b.drop_first()[k - 1]);
                }
            }
            assert(a =~= b);
        }
    } else if a.len() == 0 && b.len() == 0 {
        assert(a =~= b);
    }
}

/// Finds the first occurrence of `pat` in `s` at or after `from`.
#[verifier::loop_isolation(false)]
pub fn find_sub_at(s: &[u8], pat: &[u8], from: usize) -> (r: Option<usize>)
    requires
        pat@.len() > 0,
    ensures
        match r {
            Some(p) => find_sub(s@, pat@, from as int) == Some(p as int) && from <= p && p
                + pat@.len() <= s@.len(),
            None => find_sub(s@, pat@, from as int) is None,
        },
{
    let n = s.len();
    let m = pat.len();
    if from > n || m > n - from {
        return None;
    }
    let mut i: usize = from;
    while i <= n - m
        invariant
            from <= i,
            m <= n,
            i <= n - m + 1,
            find_sub(s@, pat@, from as int) == find_sub(s@, pat@, i as int),
        decreases n - i,
    {
        let mut j: usize = 0;
        let mut matched = true;
        while j < m
            invariant
                j <= m,
                i + m <= n,
                matched <==> s@.subrange(i as int, i as int + j as int) =~= pat@.subrange(
                    0,
                    j as int,
                ),
            decreases m - j,
        {
            if s[i + j] != pat[j] {
                matched = false;
                proof {
                    assert(s@.subrange(i as int, i as int + j as int + 1)[j as int] != pat@.subrange(
                        0,
                        j as int + 1,
                    )[j as int]);
                }
                j = m;
            } else {
                proof {
                    if matched {
                        assert(s@.subrange(i as int, i as int + j as int + 1) =~= s@.subrange(
                            i as int,
                            i as int + j as int,
                        ).push(s@[i as int + j as int]));
                        assert(pat@.subrange(0, j as int + 1) =~= pat@.subrange(0, j as int).push(
                            pat@[j as int],
                        ));
                    } else {
                        let k = choose|k: int|
                            0 <= k < j as int && s@.subrange(i as int, i as int + j as int)[k]
                                != pat@.subrange(0, j as int)[k];
                        assert(s@.subrange(i as int, i as int + j as int + 1)[k] != pat@.subrange(
                            0,
                            j as int + 1,
                        )[k]);
                    }
                }
                j += 1;
            }
        }
        if matched {
            proof {
                assert(s@.subrange(i as int, i as int + m as int) =~= pat@);
            }
            return Some(i);
        }
        proof {
            assert(s@.subrange(i as int, i as int + m as int) != pat@) by {
                if s@.subrange(i as int, i as int + m as int) == pat@ {
                    assert(s@.subrange(i as int, i as int + m as int) =~= pat@.subrange(
                        0,
                        m as int,
                    ));
                }
            }
        }
        i += 1;
    }
    None
}

/// Whether `a` and `b` hold the same bytes.
#[verifier::loop_isolation(false)]
pub fn bytes_eq(a: &[u8], b: &[u8]) -> (r: bool)
    ensures
        r <==> a@ == b@,
{
    let n = a.len();
    if b.len() != n {
        proof {
            assert(a@ != b@);
        }
        return false;
    }
    let mut i: usize = 0;
    while i < n
        invariant
            i <= n,
            forall|k: int| 0 <= k < i as int ==> a@[k] == b@[k],
        decreases n - i,
    {
        if a[i] != b[i] {
            return false;
        }
        i += 1;
    }
    proof {
        assert(a@ =~= b@);
    }
    true
}

/// Whether `a` precedes `b` in strict lexicographic byte order.
#[verifier::loop_isolation(false)]
pub fn bytes_lt(a: &[u8], b: &[u8]) -> (r: bool)
    ensures
        r == lex_lt(a@, b@),
{
    let na = a.len();
    let nb = b.len();
    let mut i: usize = 0;
    proof {
        assert(a@.skip(0) =~= a@);
        assert(b@.skip(0) =~= b@);
    }
    loop
        invariant
            i <= na,
            i <= nb,
            lex_lt(a@, b@) == lex_lt(a@.skip(i as int), b@.skip(i as int)),
        decreases na - i,
    {
        proof {
            if i < na && i < nb {
                assert(a@.skip(i as int)[0] == a@[i as int]);
                assert(b@.skip(i as int)[0] == b@[i as int]);
                assert(a@.skip(i as int).drop_first() =~= a@.skip(i as int + 1));
                assert(b@.skip(i as int).drop_first() =~= b@.skip(i as int + 1));
            }
        }
        if i == nb {
            proof {
                assert(b@.skip(i as int).len() == 0);
            }
            return false;
        }
        if i == na {
            proof {
                assert(a@.skip(i as int).len() == 0);
                assert(b@.skip(i as int).len() > 0);
            }
            return true;
        }
        if a[i] < b[i] {
            return true;
        }
        if a[i] > b[i] {
            return false;
        }
        i += 1;
    }
}

} // verus!
