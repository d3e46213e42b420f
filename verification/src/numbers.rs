//! Sets of numbers, listed in increasing order.
use vstd::prelude::*;

verus! {

/// Whether a sequence of numbers strictly increases.
pub open spec fn increasing(s: Seq<u64>) -> bool {
    forall|i: int, j: int| 0 <= i < j < s.len() ==> s[i] < s[j]
}

/// Whether a sequence lists exactly the members of a set, in increasing order.
pub open spec fn lists_set(s: Seq<u64>, members: spec_fn(u64) -> bool) -> bool {
    increasing(s) && forall|n: u64| #[trigger] s.contains(n) <==> members(n)
}

/// Two increasing sequences with the same members are the same sequence.
pub proof fn increasing_is_unique(a: Seq<u64>, b: Seq<u64>)
    requires
        increasing(a),
        increasing(b),
        forall|n: u64| #[trigger] a.contains(n) <==> b.contains(n),
    ensures
        a == b,
    decreases a.len(),
{
    if a.len() == 0 {
        if b.len() > 0 {
            assert(b.contains(b[0]));
            assert(a.contains(b[0]));
        }
        assert(a =~= b);
    } else {
        assert(a.contains(a.last()));
        assert(b.len() > 0);
        assert(b.contains(b.last()));
        assert(a.contains(b.last()));
        let i = choose|i: int| 0 <= i < b.len() && b[i] == a.last();
        let j = choose|j: int| 0 <= j < a.len() && a[j] == b.last();
        assert(a.last() == b.last());
        assert forall|n: u64| #[trigger]
            a.drop_last().contains(n) <==> b.drop_last().contains(n) by {
            dropped_last(a, n);
            dropped_last(b, n);
            assert(a.contains(n) <==> b.contains(n));
        }
        increasing_is_unique(a.drop_last(), b.drop_last());
        assert(a =~= a.drop_last().push(a.last()));
        assert(b =~= b.drop_last().push(b.last()));
    }
}

proof fn dropped_last(s: Seq<u64>, n: u64)
    requires
        increasing(s),
        s.len() > 0,
    ensures
        s.drop_last().contains(n) <==> s.contains(n) && n != s.last(),
{
    if s.contains(n) && n != s.last() {
        let i = choose|i: int| 0 <= i < s.len() && s[i] == n;
        assert(s.drop_last()[i] == n);
    }
    if s.drop_last().contains(n) {
        let i = choose|i: int| 0 <= i < s.drop_last().len() && s.drop_last()[i] == n;
        assert(s[i] == n);
    }
}

/// Adds a number to a set.
pub fn add_number(set: &mut Vec<u64>, n: u64)
    requires
        increasing(old(set)@),
    ensures
        increasing(final(set)@),
        forall|k: u64| #[trigger]
            final(set)@.contains(k) <==> old(set)@.contains(k) || k == n,
{
    let ghost before = set@;
    let mut i: usize = 0;
    while i < set.len() && set[i] < n
        invariant
            i <= set.len(),
            set@ == before,
            increasing(before),
            forall|k: int| 0 <= k < i ==> before[k] < n,
        decreases set.len() - i,
    {
        i = i + 1;
    }
    if i < set.len() && set[i] == n {
        proof {
            assert(before[i as int] == n);
        }
        return ;
    }
    set.insert(i, n);
    proof {
        let after = set@;
        assert(after == before.insert(i as int, n));
        assert(after[i as int] == n);
        assert forall|k: u64| #[trigger] after.contains(k) <==> before.contains(k) || k == n by {
            if before.contains(k) {
                let j = choose|j: int| 0 <= j < before.len() && before[j] == k;
                assert(after[if j < i { j } else { j + 1 }] == k);
            }
            if after.contains(k) && k != n {
                let j = choose|j: int| 0 <= j < after.len() && after[j] == k;
                assert(before[if j < i { j } else { j - 1 }] == k);
            }
        }
    }
}

/// The members of a list, in increasing order and without repetition.
pub fn sorted_set(list: &Vec<u64>) -> (r: Vec<u64>)
    ensures
        lists_set(r@, |n: u64| list@.contains(n)),
{
    let mut out: Vec<u64> = Vec::new();
    let mut i: usize = 0;
    while i < list.len()
        invariant
            i <= list.len(),
            increasing(out@),
            forall|n: u64| #[trigger] out@.contains(n) <==> list@.take(i as int).contains(n),
        decreases list.len() - i,
    {
        let ghost before = out@;
        add_number(&mut out, list[i]);
        proof {
            let shorter = list@.take(i as int);
            let longer = list@.take(i + 1);
            assert(longer =~= shorter.push(list@[i as int]));
            assert forall|n: u64| #[trigger] out@.contains(n) <==> longer.contains(n) by {
                if shorter.contains(n) {
                    let j = choose|j: int| 0 <= j < shorter.len() && shorter[j] == n;
                    assert(longer[j] == n);
                }
                if n == list@[i as int] {
                    assert(longer[i as int] == n);
                }
                if longer.contains(n) && n != list@[i as int] {
                    let j = choose|j: int| 0 <= j < longer.len() && longer[j] == n;
                    assert(shorter[j] == n);
                }
                assert(before.contains(n) <==> shorter.contains(n));
            }
        }
        i = i + 1;
    }
    proof {
        assert(list@.take(list@.len() as int) =~= list@);
    }
    out
}

/// Whether a list holds a number.
pub fn has_number(list: &Vec<u64>, n: u64) -> (r: bool)
    ensures
        r == list@.contains(n),
{
    let mut i: usize = 0;
    while i < list.len()
        invariant
            i <= list.len(),
            forall|k: int| 0 <= k < i ==> list@[k] != n,
        decreases list.len() - i,
    {
        if list[i] == n {
            return true;
        }
        i = i + 1;
    }
    false
}

} // verus!
