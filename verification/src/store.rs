//! The store of latest check results, one per slot.

use crate::monitor::{CheckResult, ServiceCheck, StatusKey};
use vstd::prelude::*;

verus! {

/// The plain values of a sequence of check results.
pub open spec fn views(s: Seq<ServiceCheck>) -> Seq<CheckResult> {
    s.map_values(|c: ServiceCheck| c@)
}

/// No two results of `l` fill the same slot.
pub open spec fn distinct_keys(l: Seq<CheckResult>) -> bool {
    forall|i: int, j: int| 0 <= i < j < l.len() ==> (#[trigger] l[i]).key() != (#[trigger] l[j]).key()
}

/// Every result of `m` is filed under its own slot.
pub open spec fn filed_by_key(m: Map<StatusKey, CheckResult>) -> bool {
    forall|k: StatusKey| m.contains_key(k) ==> (#[trigger] m[k]).key() == k
}

/// `l` holds each result of `m` exactly once, in some order, and nothing else.
pub open spec fn enumerates(m: Map<StatusKey, CheckResult>, l: Seq<CheckResult>) -> bool {
    &&& distinct_keys(l)
    &&& forall|i: int| 0 <= i < l.len() ==> m.contains_key((#[trigger] l[i]).key()) && m[l[i].key()] == l[i]
    &&& forall|k: StatusKey| m.contains_key(k) ==> exists|i: int| 0 <= i < l.len() && (#[trigger] l[i]).key() == k
}

/// The position in `l` of the result that fills slot `k`.
spec fn position_of(l: Seq<CheckResult>, k: StatusKey) -> int {
    choose|i: int| 0 <= i < l.len() && (#[trigger] l[i]).key() == k
}

/// The mapping from slot to result that `l` lists.
spec fn map_of(l: Seq<CheckResult>) -> Map<StatusKey, CheckResult> {
    Map::new(
        |k: StatusKey| exists|i: int| 0 <= i < l.len() && (#[trigger] l[i]).key() == k,
        |k: StatusKey| l[position_of(l, k)],
    )
}

proof fn lemma_map_of_at(l: Seq<CheckResult>, i: int)
    requires
        distinct_keys(l),
        0 <= i < l.len(),
    ensures
        map_of(l).contains_key(l[i].key()),
        map_of(l)[l[i].key()] == l[i],
{
    let k = l[i].key();
    let p = position_of(l, k);
    assert(0 <= p < l.len() && l[p].key() == k);
    if p < i {
        assert(l[p].key() != l[i].key());
    } else if i < p {
        assert(l[i].key() != l[p].key());
    }
}

proof fn lemma_map_of_enumerated(l: Seq<CheckResult>)
    requires
        distinct_keys(l),
    ensures
        enumerates(map_of(l), l),
        filed_by_key(map_of(l)),
{
    assert forall|i: int| 0 <= i < l.len() implies map_of(l).contains_key((#[trigger] l[i]).key())
        && map_of(l)[l[i].key()] == l[i] by {
        lemma_map_of_at(l, i);
    }
    assert forall|k: StatusKey| map_of(l).contains_key(k) implies (#[trigger] map_of(l)[k]).key() == k by {
        let i = choose|i: int| 0 <= i < l.len() && (#[trigger] l[i]).key() == k;
        lemma_map_of_at(l, i);
    }
}

proof fn lemma_map_of_push(l: Seq<CheckResult>, x: CheckResult)
    requires
        distinct_keys(l),
        forall|i: int| 0 <= i < l.len() ==> (#[trigger] l[i]).key() != x.key(),
    ensures
        distinct_keys(l.push(x)),
        map_of(l.push(x)) == map_of(l).insert(x.key(), x),
{
    let l2 = l.push(x);
    assert(distinct_keys(l2));
    lemma_map_of_enumerated(l);
    lemma_map_of_enumerated(l2);
    let m = map_of(l).insert(x.key(), x);
    assert forall|k: StatusKey| map_of(l2).contains_key(k) <==> m.contains_key(k) by {
        if map_of(l2).contains_key(k) {
            let i = choose|i: int| 0 <= i < l2.len() && (#[trigger] l2[i]).key() == k;
            if i < l.len() {
                assert(l[i].key() == k);
            }
        }
        if m.contains_key(k) && k != x.key() {
            let i = choose|i: int| 0 <= i < l.len() && (#[trigger] l[i]).key() == k;
            assert(l2[i].key() == k);
        }
        if k == x.key() {
            assert(l2[l.len() as int].key() == k);
        }
    }
    assert forall|k: StatusKey| map_of(l2).contains_key(k) implies map_of(l2)[k] == m[k] by {
        let i = choose|i: int| 0 <= i < l2.len() && (#[trigger] l2[i]).key() == k;
        lemma_map_of_at(l2, i);
        if i < l.len() {
            assert(l[i] == l2[i]);
            lemma_map_of_at(l, i);
        }
    }
    assert(map_of(l2) =~= m);
}

proof fn lemma_map_of_update(l: Seq<CheckResult>, p: int, x: CheckResult)
    requires
        distinct_keys(l),
        0 <= p < l.len(),
        l[p].key() == x.key(),
    ensures
        distinct_keys(l.update(p, x)),
        map_of(l.update(p, x)) == map_of(l).insert(x.key(), x),
{
    let l2 = l.update(p, x);
    assert forall|i: int, j: int| 0 <= i < j < l2.len() implies (#[trigger] l2[i]).key() != (#[trigger] l2[j]).key() by {
        assert(l[i].key() != l[j].key());
    }
    lemma_map_of_enumerated(l);
    lemma_map_of_enumerated(l2);
    let m = map_of(l).insert(x.key(), x);
    assert forall|k: StatusKey| map_of(l2).contains_key(k) <==> m.contains_key(k) by {
        if map_of(l2).contains_key(k) {
            let i = choose|i: int| 0 <= i < l2.len() && (#[trigger] l2[i]).key() == k;
            assert(l[i].key() == k);
        }
        if m.contains_key(k) && k != x.key() {
            let i = choose|i: int| 0 <= i < l.len() && (#[trigger] l[i]).key() == k;
            assert(l2[i].key() == k);
        }
        if k == x.key() {
            assert(l2[p].key() == k);
        }
    }
    assert forall|k: StatusKey| map_of(l2).contains_key(k) implies map_of(l2)[k] == m[k] by {
        let i = choose|i: int| 0 <= i < l2.len() && (#[trigger] l2[i]).key() == k;
        lemma_map_of_at(l2, i);
        if i != p {
            assert(l[i] == l2[i]);
            lemma_map_of_at(l, i);
        }
    }
    assert(map_of(l2) =~= m);
}

proof fn lemma_map_of_len(l: Seq<CheckResult>)
    requires
        distinct_keys(l),
    ensures
        map_of(l).dom().finite(),
        map_of(l).len() == l.len(),
    decreases l.len(),
{
    if l.len() == 0 {
        assert(map_of(l) =~= Map::<StatusKey, CheckResult>::empty());
    } else {
        let front = l.drop_last();
        assert(distinct_keys(front)) by {
            assert forall|i: int, j: int| 0 <= i < j < front.len() implies (#[trigger] front[i]).key() != (
            #[trigger] front[j]).key() by {
                assert(l[i].key() != l[j].key());
            }
        }
        lemma_map_of_len(front);
        assert forall|i: int| 0 <= i < front.len() implies (#[trigger] front[i]).key() != l.last().key() by {
            assert(l[i].key() != l[l.len() - 1].key());
        }
        lemma_map_of_push(front, l.last());
        assert(front.push(l.last()) =~= l);
        assert(!map_of(front).contains_key(l.last().key())) by {
            if map_of(front).contains_key(l.last().key()) {
                let i = choose|i: int| 0 <= i < front.len() && (#[trigger] front[i]).key() == l.last().key();
                assert(front[i].key() != l.last().key());
            }
        }
    }
}

/// The latest check result of each slot. A slot is filled or overwritten,
/// never emptied.
#[derive(Debug)]
pub struct StatusStore {
    entries: Vec<ServiceCheck>,
}

impl View for StatusStore {
    type V = Map<StatusKey, CheckResult>;

    closed spec fn view(&self) -> Map<StatusKey, CheckResult> {
        map_of(views(self.entries@))
    }
}

impl StatusStore {
    #[verifier::type_invariant]
    spec fn one_result_per_slot(self) -> bool {
        distinct_keys(views(self.entries@))
    }

    /// A store with no result in it.
    pub fn new() -> (r: Self)
        ensures
            r@ == Map::<StatusKey, CheckResult>::empty(),
    {
        let r = StatusStore { entries: Vec::new() };
        assert(r@ =~= Map::<StatusKey, CheckResult>::empty());
        r
    }

    /// Files `check` under its slot, in place of what the slot held.
    pub fn insert(&mut self, check: ServiceCheck)
        ensures
            final(self)@ == old(self)@.insert(check@.key(), check@),
    {
        proof {
            use_type_invariant(&*self);
        }
        let mut entries: Vec<ServiceCheck> = Vec::new();
        std::mem::swap(&mut entries, &mut self.entries);
        let n = entries.len();
        let mut i: usize = 0;
        let mut found: bool = false;
        while i < n && !found
            invariant
                i <= n,
                n == entries@.len(),
                found ==> i < n && views(entries@)[i as int].key() == check@.key(),
                forall|j: int| 0 <= j < i ==> (#[trigger] views(entries@)[j]).key() != check@.key(),
            decreases n - i + if found { 0int } else { 1int },
        {
            if entries[i].same_key(&check) {
                found = true;
            } else {
                i += 1;
            }
        }
        if found {
            proof {
                lemma_map_of_update(views(entries@), i as int, check@);
                assert(views(entries@.update(i as int, check)) =~= views(entries@).update(i as int, check@));
            }
            entries.set(i, check);
        } else {
            proof {
                lemma_map_of_push(views(entries@), check@);
                assert(views(entries@.push(check)) =~= views(entries@).push(check@));
            }
            entries.push(check);
        }
        std::mem::swap(&mut entries, &mut self.entries);
    }

    /// The number of filled slots.
    pub fn len(&self) -> (r: usize)
        ensures
            self@.dom().finite(),
            r == self@.len(),
    {
        proof {
            use_type_invariant(self);
            lemma_map_of_len(views(self.entries@));
        }
        self.entries.len()
    }

    /// A copy of every stored result, in no particular order.
    pub fn values(&self) -> (r: Vec<ServiceCheck>)
        ensures
            enumerates(self@, views(r@)),
            filed_by_key(self@),
            self@.dom().finite(),
            r@.len() == self@.len(),
    {
        proof {
            use_type_invariant(self);
            lemma_map_of_enumerated(views(self.entries@));
            lemma_map_of_len(views(self.entries@));
        }
        let mut out: Vec<ServiceCheck> = Vec::new();
        let n = self.entries.len();
        let mut i: usize = 0;
        while i < n
            invariant
                i <= n,
                n == self.entries@.len(),
                out@.len() == i,
                forall|j: int| 0 <= j < i ==> (#[trigger] out@[j])@ == self.entries@[j]@,
            decreases n - i,
        {
            out.push(self.entries[i].clone());
            i += 1;
        }
        assert(views(out@) =~= views(self.entries@));
        out
    }
}

impl Clone for StatusStore {
    fn clone(&self) -> (r: Self)
        ensures
            r@ == self@,
    {
        proof {
            use_type_invariant(self);
        }
        let mut out: Vec<ServiceCheck> = Vec::new();
        let n = self.entries.len();
        let mut i: usize = 0;
        while i < n
            invariant
                i <= n,
                n == self.entries@.len(),
                out@.len() == i,
                forall|j: int| 0 <= j < i ==> (#[trigger] out@[j])@ == self.entries@[j]@,
            decreases n - i,
        {
            out.push(self.entries[i].clone());
            i += 1;
        }
        assert(views(out@) =~= views(self.entries@));
        StatusStore { entries: out }
    }
}

} // verus!
