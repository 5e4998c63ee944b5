//! The transient active-actor set of one refresh window, and the inter-day
//! delta: how many of today's actors were absent from the previous window.
use vstd::prelude::*;

verus! {

/// Some entry of `s` spells exactly `x`.
pub open spec fn seq_contains_str(s: Seq<String>, x: Seq<char>) -> bool {
    exists|i: int| 0 <= i < s.len() && s[i]@ == x
}

/// No identifier occurs twice.
pub open spec fn wallets_unique(s: Seq<String>) -> bool {
    forall|i: int, j: int| 0 <= i < j < s.len() ==> s[i]@ != s[j]@
}

/// The identifiers of `s`, as a set of character sequences.
pub open spec fn id_set(s: Seq<String>) -> Set<Seq<char>> {
    s.map_values(|w: String| w@).to_set()
}

/// How many identifiers of `cur` are missing from `prev`, scanning `cur` in
/// order.
pub open spec fn diff_count(cur: Seq<String>, prev: Seq<String>) -> int
    decreases cur.len(),
{
    if cur.len() == 0 {
        0
    } else {
        diff_count(cur.drop_last(), prev) + if seq_contains_str(prev, cur.last()@) {
            0int
        } else {
            1int
        }
    }
}

/// Membership in `id_set` is spelling some entry.
pub proof fn lemma_id_set_contains(s: Seq<String>, x: Seq<char>)
    ensures
        id_set(s).contains(x) == seq_contains_str(s, x),
{
    let m = s.map_values(|w: String| w@);
    if seq_contains_str(s, x) {
        let i = choose|i: int| 0 <= i < s.len() && s[i]@ == x;
        assert(m[i] == x);
        assert(m.contains(x));
    }
    if m.to_set().contains(x) {
        let i = choose|i: int| 0 <= i < m.len() && m[i] == x;
        assert(s[i]@ == x);
    }
}

/// `id_set` of a sequence is finite.
pub proof fn lemma_id_set_finite(s: Seq<String>)
    ensures
        id_set(s).finite(),
{
    broadcast use vstd::seq_lib::seq_to_set_is_finite;

}

/// On a duplicate-free scan, `diff_count` is the cardinality of the set
/// difference between the two windows' identifier sets.
pub proof fn lemma_diff_count_is_set_difference(cur: Seq<String>, prev: Seq<String>)
    requires
        wallets_unique(cur),
    ensures
        diff_count(cur, prev) == id_set(cur).difference(id_set(prev)).len(),
    decreases cur.len(),
{
    broadcast use vstd::set::group_set_axioms;
    broadcast use vstd::seq_lib::seq_to_set_is_finite;

    if cur.len() == 0 {
        assert(id_set(cur) =~= Set::<Seq<char>>::empty());
        assert(id_set(cur).difference(id_set(prev)) =~= Set::<Seq<char>>::empty());
    } else {
        let d = cur.drop_last();
        let x = cur.last()@;
        assert(wallets_unique(d)) by {
            assert(forall|i: int, j: int| 0 <= i < j < d.len() ==> d[i] == cur[i] && d[j] == cur[j]);
        }
        lemma_diff_count_is_set_difference(d, prev);
        assert(id_set(cur) =~= id_set(d).insert(x)) by {
            assert forall|y: Seq<char>| id_set(cur).contains(y) == id_set(d).insert(x).contains(y) by {
                lemma_id_set_contains(cur, y);
                lemma_id_set_contains(d, y);
                if seq_contains_str(cur, y) {
                    let i = choose|i: int| 0 <= i < cur.len() && cur[i]@ == y;
                    if i < cur.len() - 1 {
                        assert(d[i]@ == y);
                    }
                }
                if seq_contains_str(d, y) {
                    let i = choose|i: int| 0 <= i < d.len() && d[i]@ == y;
                    assert(cur[i]@ == y);
                }
                assert(cur[cur.len() - 1]@ == x);
            }
        }
        assert(!id_set(d).contains(x)) by {
            lemma_id_set_contains(d, x);
            if seq_contains_str(d, x) {
                let i = choose|i: int| 0 <= i < d.len() && d[i]@ == x;
                assert(cur[i]@ == cur[cur.len() - 1]@);
            }
        }
        lemma_id_set_finite(d);
        lemma_id_set_finite(prev);
        let base = id_set(d).difference(id_set(prev));
        assert(base.finite());
        assert(!base.contains(x));
        lemma_id_set_contains(prev, x);
        if seq_contains_str(prev, x) {
            assert(id_set(cur).difference(id_set(prev)) =~= base);
        } else {
            assert(id_set(cur).difference(id_set(prev)) =~= base.insert(x));
        }
    }
}

/// Does the accumulated set already hold `id`?
pub fn wallets_contain(set: &Vec<String>, id: &String) -> (r: bool)
    ensures
        r == seq_contains_str(set@, id@),
{
    let mut i: usize = 0;
    while i < set.len()
        invariant
            0 <= i <= set@.len(),
            forall|j: int| 0 <= j < i ==> set@[j]@ != id@,
        decreases set@.len() - i,
    {
        if set[i].eq(id) {
            return true;
        }
        i = i + 1;
    }
    false
}

/// Adds `id` unless an equal identifier is already present; duplicates are
/// idempotent, as required of the page accumulator.
pub fn wallets_insert(set: &mut Vec<String>, id: String)
    ensures
        seq_contains_str(old(set)@, id@) ==> final(set)@ == old(set)@,
        !seq_contains_str(old(set)@, id@) ==> final(set)@ == old(set)@.push(id),
        wallets_unique(old(set)@) ==> wallets_unique(final(set)@),
        final(set)@.len() <= old(set)@.len() + 1,
{
    if !wallets_contain(set, &id) {
        let ghost orig = set@;
        set.push(id);
        proof {
            if wallets_unique(orig) {
                assert forall|i: int, j: int| 0 <= i < j < set@.len() implies set@[i]@ != set@[j]@ by {
                    if j < set@.len() - 1 {
                        assert(orig[i]@ != orig[j]@);
                    } else {
                        assert(!seq_contains_str(orig, set@[j]@));
                    }
                }
            }
        }
    }
}

/// Counts the identifiers of `current` that `previous` lacks: the new-wallet
/// inflow between two successive windows.
pub fn count_new_wallets(current: &Vec<String>, previous: &Vec<String>) -> (r: u64)
    ensures
        r == diff_count(current@, previous@),
{
    let mut n: u64 = 0;
    let mut i: usize = 0;
    proof {
        assert(current@.take(0) =~= Seq::<String>::empty());
    }
    while i < current.len()
        invariant
            0 <= i <= current@.len(),
            n <= i,
            n == diff_count(current@.take(i as int), previous@),
        decreases current@.len() - i,
    {
        proof {
            assert(current@.take(i + 1).drop_last() =~= current@.take(i as int));
            assert(current@.take(i + 1).last() == current@[i as int]);
        }
        if !wallets_contain(previous, &current[i]) {
            n = n + 1;
        }
        i = i + 1;
    }
    proof {
        assert(current@.take(current@.len() as int) =~= current@);
    }
    n
}

} // verus!
