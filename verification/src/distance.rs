//! Edit distance and string similarity.
//!
//! Similarity is measured in thousandths: `1000 · (1 − d/m)` rounded to the
//! nearest thousandth, where `d` is the Levenshtein distance and `m` the
//! longer length in characters. Character counts are used, not byte counts,
//! so multi-byte text is measured correctly.

use vstd::arithmetic::div_mod::{
    lemma_div_is_ordered, lemma_div_multiples_vanish_fancy, lemma_div_pos_is_pos,
};
use vstd::prelude::*;

verus! {

/// The smaller of three values.
pub open spec fn min3(a: nat, b: nat, c: nat) -> nat {
    if a <= b && a <= c {
        a
    } else if b <= c {
        b
    } else {
        c
    }
}

/// The larger of two values.
pub open spec fn max2(a: nat, b: nat) -> nat {
    if a >= b {
        a
    } else {
        b
    }
}

/// Levenshtein edit distance between two character sequences: the least
/// number of single-character insertions, deletions and substitutions that
/// turns one into the other.
pub open spec fn edit_distance(a: Seq<char>, b: Seq<char>) -> nat
    decreases a.len() + b.len(),
{
    if a.len() == 0 {
        b.len()
    } else if b.len() == 0 {
        a.len()
    } else {
        let cost: nat = if a.last() == b.last() {
            0
        } else {
            1
        };
        min3(
            edit_distance(a.drop_last(), b) + 1,
            edit_distance(a, b.drop_last()) + 1,
            edit_distance(a.drop_last(), b.drop_last()) + cost,
        )
    }
}

/// The edit distance never exceeds the longer length.
pub proof fn lemma_edit_distance_le_max(a: Seq<char>, b: Seq<char>)
    ensures
        edit_distance(a, b) <= max2(a.len(), b.len()),
    decreases a.len() + b.len(),
{
    if a.len() > 0 && b.len() > 0 {
        lemma_edit_distance_le_max(a.drop_last(), b.drop_last());
    }
}

/// A sequence is at distance zero from itself.
pub proof fn lemma_edit_distance_self(a: Seq<char>)
    ensures
        edit_distance(a, a) == 0,
    decreases a.len(),
{
    if a.len() > 0 {
        lemma_edit_distance_self(a.drop_last());
    }
}

/// Similarity between two character sequences, in thousandths: full
/// similarity (1000) when both are empty, otherwise `1000 · (1 − d/m)`
/// rounded to the nearest thousandth, which is zero when one is empty.
pub open spec fn similarity_permille(a: Seq<char>, b: Seq<char>) -> int {
    if a.len() == 0 && b.len() == 0 {
        1000
    } else {
        let m = max2(a.len(), b.len()) as int;
        let d = edit_distance(a, b) as int;
        ((m - d) * 1000 + m / 2) / m
    }
}

/// Similarity always lies between zero and one thousand thousandths.
pub proof fn lemma_similarity_range(a: Seq<char>, b: Seq<char>)
    ensures
        0 <= similarity_permille(a, b) <= 1000,
{
    if a.len() == 0 && b.len() == 0 {
    } else {
        let m = max2(a.len(), b.len()) as int;
        let d = edit_distance(a, b) as int;
        lemma_edit_distance_le_max(a, b);
        assert(0 < m);
        assert(0 <= d <= m);
        let num = (m - d) * 1000 + m / 2;
        lemma_div_pos_is_pos(num, m);
        assert((m - d) * 1000 <= m * 1000) by (nonlinear_arith)
            requires
                0 <= d,
                m - d <= m,
        ;
        lemma_div_is_ordered(num, m * 1000 + m / 2, m);
        lemma_div_multiples_vanish_fancy(1000, m / 2, m);
        assert((m * 1000 + m / 2) / m == 1000);
    }
}

/// The similarity of a sequence with itself is full.
pub proof fn lemma_similarity_reflexive(a: Seq<char>)
    ensures
        similarity_permille(a, a) == 1000,
{
    if a.len() > 0 {
        lemma_edit_distance_self(a);
        let m = a.len() as int;
        lemma_div_multiples_vanish_fancy(1000, m / 2, m);
        assert((m * 1000 + m / 2) / m == 1000);
    }
}

/// The characters of `s`, in order.
fn str_chars(s: &str) -> (r: Vec<char>)
    ensures
        r@ == s@,
{
    let n = s.unicode_len();
    let mut r: Vec<char> = Vec::new();
    let mut i: usize = 0;
    while i < n
        invariant
            i <= n,
            n == s@.len(),
            r@ == s@.take(i as int),
        decreases n - i,
    {
        let c = s.get_char(i);
        r.push(c);
        proof {
            assert(r@ =~= s@.take(i + 1));
        }
        i += 1;
    }
    proof {
        assert(s@.take(n as int) =~= s@);
    }
    r
}

/// Levenshtein distance between two strings, in characters.
pub fn levenshtein_distance(s1: &str, s2: &str) -> (d: usize)
    ensures
        d == edit_distance(s1@, s2@),
{
    let chars1 = str_chars(s1);
    let chars2 = str_chars(s2);
    let ghost av = s1@;
    let ghost bv = s2@;
    let len1 = chars1.len();
    let len2 = chars2.len();

    // Row 0: distance from the empty prefix of `s1`.
    let mut row0: Vec<usize> = Vec::new();
    row0.push(0);
    let mut j: usize = 0;
    while j < len2
        invariant
            j <= len2,
            row0@.len() == j + 1,
            forall|q: int| 0 <= q <= j ==> #[trigger] row0@[q] == q,
        decreases len2 - j,
    {
        row0.push(j + 1);
        j += 1;
    }
    proof {
        assert forall|q: int| 0 <= q <= len2 implies edit_distance(av.take(0), bv.take(q))
            == q by {
            assert(av.take(0) =~= Seq::<char>::empty());
            assert(bv.take(q).len() == q);
        }
    }
    let mut matrix: Vec<Vec<usize>> = Vec::new();
    matrix.push(row0);

    let mut i: usize = 0;
    while i < len1
        invariant
            i <= len1,
            len1 == av.len(),
            len2 == bv.len(),
            chars1@ == av,
            chars2@ == bv,
            matrix@.len() == i + 1,
            forall|p: int| 0 <= p <= i ==> (#[trigger] matrix@[p])@.len() == len2 + 1,
            forall|p: int, q: int|
                0 <= p <= i && 0 <= q <= len2 ==> #[trigger] matrix@[p]@[q] == edit_distance(
                    av.take(p),
                    bv.take(q),
                ),
        decreases len1 - i,
    {
        let mut row: Vec<usize> = Vec::new();
        row.push(i + 1);
        proof {
            assert(bv.take(0) =~= Seq::<char>::empty());
            assert(av.take(i + 1).len() == i + 1);
            assert(edit_distance(av.take(i + 1), bv.take(0)) == i + 1);
        }
        let mut j: usize = 0;
        while j < len2
            invariant
                j <= len2,
                i < len1,
                len1 == av.len(),
                len2 == bv.len(),
                chars1@ == av,
                chars2@ == bv,
                matrix@.len() == i + 1,
                forall|p: int| 0 <= p <= i ==> (#[trigger] matrix@[p])@.len() == len2 + 1,
                forall|p: int, q: int|
                    0 <= p <= i && 0 <= q <= len2 ==> #[trigger] matrix@[p]@[q] == edit_distance(
                        av.take(p),
                        bv.take(q),
                    ),
                row@.len() == j + 1,
                forall|q: int|
                    0 <= q <= j ==> #[trigger] row@[q] == edit_distance(av.take(i + 1), bv.take(q)),
            decreases len2 - j,
        {
            let cost: usize = if chars1[i] == chars2[j] {
                0
            } else {
                1
            };
            let diag = matrix[i][j];
            let up = matrix[i][j + 1];
            let left = row[j];
            proof {
                lemma_edit_distance_le_max(av.take(i as int), bv.take(j as int));
                assert(av.take(i + 1).last() == av[i as int]);
                assert(bv.take(j + 1).last() == bv[j as int]);
                assert(av.take(i + 1).drop_last() =~= av.take(i as int));
                assert(bv.take(j + 1).drop_last() =~= bv.take(j as int));
            }
            let mut best = diag + cost;
            if up < best {
                best = up + 1;
            }
            if left < best {
                best = left + 1;
            }
            proof {
                assert(best == edit_distance(av.take(i + 1), bv.take(j + 1)));
            }
            row.push(best);
            j += 1;
        }
        matrix.push(row);
        i += 1;
    }
    let d = matrix[len1][len2];
    proof {
        assert(av.take(len1 as int) =~= av);
        assert(bv.take(len2 as int) =~= bv);
    }
    d
}

/// Similarity between two strings, in thousandths of full similarity.
pub fn calculate_similarity(s1: &str, s2: &str) -> (r: u32)
    ensures
        r as int == similarity_permille(s1@, s2@),
        r <= 1000,
{
    let n1 = s1.unicode_len();
    let n2 = s2.unicode_len();
    if n1 == 0 && n2 == 0 {
        return 1000;
    }
    let m: usize = if n1 >= n2 {
        n1
    } else {
        n2
    };
    let d = levenshtein_distance(s1, s2);
    proof {
        lemma_edit_distance_le_max(s1@, s2@);
        lemma_similarity_range(s1@, s2@);
    }
    let num: u128 = (m - d) as u128 * 1000 + (m / 2) as u128;
    let q: u128 = num / (m as u128);
    proof {
        assert(q == similarity_permille(s1@, s2@));
    }
    q as u32
}

} // verus!
