//! The lexicographic order of strings by their characters' code points.

use vstd::prelude::*;
use vstd::string::*;

verus! {

/// `a` and `b` agree on their first `k` characters and part ways there, or
/// one of them ends there.
pub open spec fn part_at(a: Seq<char>, b: Seq<char>, k: int) -> bool {
    &&& 0 <= k <= a.len()
    &&& k <= b.len()
    &&& forall|j: int| 0 <= j < k ==> a[j] == b[j]
    &&& (k == a.len() || k == b.len() || a[k] != b[k])
}

/// The position at which `a` and `b` part ways.
pub open spec fn parting(a: Seq<char>, b: Seq<char>) -> int {
    choose|k: int| part_at(a, b, k)
}

/// `a` comes before `b`, or equals it: `a` is a prefix of `b`, or has the
/// lesser character where the two first differ.
pub open spec fn lex_le(a: Seq<char>, b: Seq<char>) -> bool {
    let k = parting(a, b);
    k == a.len() || (k < b.len() && a[k] < b[k])
}

/// No element of the sequence comes before an earlier one.
pub open spec fn sorted(s: Seq<Seq<char>>) -> bool {
    forall|i: int, j: int| 0 <= i <= j < s.len() ==> lex_le(s[i], s[j])
}

/// Two strings part ways at exactly one position.
pub proof fn lemma_parting_unique(a: Seq<char>, b: Seq<char>, k: int)
    requires
        part_at(a, b, k),
    ensures
        parting(a, b) == k,
{
    let m = parting(a, b);
    assert(part_at(a, b, m));
    if m < k {
        assert(a[m] == b[m]);
    }
    if k < m {
        assert(a[k] == b[k]);
    }
}

/// Every two strings part ways somewhere.
pub proof fn lemma_parting_exists(a: Seq<char>, b: Seq<char>, k: int)
    requires
        0 <= k <= a.len(),
        k <= b.len(),
        forall|j: int| 0 <= j < k ==> a[j] == b[j],
    ensures
        part_at(a, b, parting(a, b)),
    decreases a.len() - k,
{
    if k == a.len() || k == b.len() || a[k] != b[k] {
        assert(part_at(a, b, k));
    } else {
        lemma_parting_exists(a, b, k + 1);
    }
}

/// Of two strings one comes before the other.
pub proof fn lemma_lex_total(a: Seq<char>, b: Seq<char>)
    ensures
        lex_le(a, b) || lex_le(b, a),
{
    lemma_parting_exists(a, b, 0);
    let k = parting(a, b);
    assert(part_at(b, a, k));
    lemma_parting_unique(b, a, k);
}

/// Every string comes before itself.
pub proof fn lemma_lex_reflexive(a: Seq<char>)
    ensures
        lex_le(a, a),
{
    assert(part_at(a, a, a.len() as int));
    lemma_parting_unique(a, a, a.len() as int);
}

/// The order is transitive.
pub proof fn lemma_lex_transitive(a: Seq<char>, b: Seq<char>, c: Seq<char>)
    requires
        lex_le(a, b),
        lex_le(b, c),
    ensures
        lex_le(a, c),
{
    lemma_parting_exists(a, b, 0);
    lemma_parting_exists(b, c, 0);
    let k1 = parting(a, b);
    let k2 = parting(b, c);
    let k = if k1 < k2 {
        k1
    } else {
        k2
    };
    assert(part_at(a, c, k));
    lemma_parting_unique(a, c, k);
}

/// Tells whether `a` comes before `b` or equals it.
pub fn str_le(a: &str, b: &str) -> (r: bool)
    ensures
        r == lex_le(a@, b@),
{
    let n: usize = a.unicode_len();
    let m: usize = b.unicode_len();
    let mut i: usize = 0;
    while i < n && i < m
        invariant
            n == a@.len(),
            m == b@.len(),
            i <= n,
            i <= m,
            forall|j: int| 0 <= j < i ==> a@[j] == b@[j],
        decreases n - i,
    {
        let x = a.get_char(i);
        let y = b.get_char(i);
        if x != y {
            proof {
                lemma_parting_unique(a@, b@, i as int);
            }
            return x < y;
        }
        i += 1;
    }
    proof {
        lemma_parting_unique(a@, b@, i as int);
    }
    i == n
}

} // verus!
