//! Check results in the order of their slots.

use crate::monitor::{
    key_le, key_lt, lemma_key_lt_asymmetric, lemma_key_lt_connected, lemma_key_lt_transitive,
    CheckResult, ServiceCheck, StatusKey,
};
use crate::store::{distinct_keys, enumerates, views};
use crate::text::{lemma_text_lt_transitive, text_lt};
use vstd::prelude::*;

verus! {

/// Each result of `l` fills the same slot as the one after it or an earlier one.
pub open spec fn ordered(l: Seq<CheckResult>) -> bool {
    forall|i: int, j: int|
        0 <= i < j < l.len() ==> key_le((#[trigger] l[i]).key(), (#[trigger] l[j]).key())
}

/// Each result of `l` fills an earlier slot than the one after it.
pub open spec fn ascending(l: Seq<CheckResult>) -> bool {
    forall|i: int, j: int|
        0 <= i < j < l.len() ==> key_lt((#[trigger] l[i]).key(), (#[trigger] l[j]).key())
}

/// `l` is the listing of `m`: each result of `m` once, in the order of the
/// slots.
pub open spec fn lists(m: Map<StatusKey, CheckResult>, l: Seq<CheckResult>) -> bool {
    enumerates(m, l) && ascending(l)
}

proof fn lemma_key_lt_le(a: StatusKey, b: StatusKey, c: StatusKey)
    requires
        key_lt(a, b),
        key_le(b, c),
    ensures
        key_lt(a, c),
{
    if b != c {
        lemma_key_lt_transitive(a, b, c);
    }
}

proof fn lemma_insert_keeps_order(l: Seq<CheckResult>, pos: int, x: CheckResult)
    requires
        ordered(l),
        0 <= pos <= l.len(),
        forall|p: int| 0 <= p < pos ==> key_le((#[trigger] l[p]).key(), x.key()),
        forall|q: int| pos <= q < l.len() ==> key_le(x.key(), (#[trigger] l[q]).key()),
    ensures
        ordered(l.insert(pos, x)),
{
    let l2 = l.insert(pos, x);
    assert forall|i: int, j: int| 0 <= i < j < l2.len() implies key_le(
        (#[trigger] l2[i]).key(),
        (#[trigger] l2[j]).key(),
    ) by {
        if j < pos {
            assert(l2[i] == l[i] && l2[j] == l[j]);
        } else if j == pos {
            assert(l2[i] == l[i]);
        } else if i < pos {
            assert(l2[i] == l[i] && l2[j] == l[j - 1]);
        } else if i == pos {
            assert(l2[j] == l[j - 1]);
        } else {
            assert(l2[i] == l[i - 1] && l2[j] == l[j - 1]);
        }
    }
}

/// The results of `items` in the order of their slots.
pub fn sort_by_key(items: Vec<ServiceCheck>) -> (r: Vec<ServiceCheck>)
    ensures
        ordered(views(r@)),
        views(r@).to_multiset() == views(items@).to_multiset(),
{
    broadcast use vstd::multiset::group_multiset_axioms;
    broadcast use vstd::seq_lib::group_to_multiset_ensures;

    let mut rest = items;
    let mut out: Vec<ServiceCheck> = Vec::new();
    assert(views(out@) =~= Seq::<CheckResult>::empty());
    while rest.len() > 0
        invariant
            ordered(views(out@)),
            views(out@).to_multiset().add(views(rest@).to_multiset()) == views(items@).to_multiset(),
        decreases rest@.len(),
    {
        let ghost before = rest@;
        let ghost sorted = out@;
        let x = rest.pop().unwrap();
        let mut pos: usize = 0;
        while pos < out.len() && !x.key_before(&out[pos])
            invariant
                pos <= out@.len(),
                forall|p: int| 0 <= p < pos ==> key_le((#[trigger] views(out@)[p]).key(), x@.key()),
            decreases out@.len() - pos,
        {
            proof {
                let here = views(out@)[pos as int].key();
                if here != x@.key() {
                    lemma_key_lt_connected(here, x@.key());
                }
            }
            pos += 1;
        }
        proof {
            let l = views(out@);
            assert forall|q: int| pos <= q < l.len() implies key_le(x@.key(), (#[trigger] l[q]).key()) by {
                if q > pos {
                    lemma_key_lt_le(x@.key(), l[pos as int].key(), l[q].key());
                }
            }
            lemma_insert_keeps_order(l, pos as int, x@);
            assert(views(out@.insert(pos as int, x)) =~= l.insert(pos as int, x@));
            assert(views(before) =~= views(rest@).push(x@));
            vstd::seq_lib::to_multiset_insert(l, pos as int, x@);
            vstd::seq_lib::to_multiset_build(views(rest@), x@);
        }
        out.insert(pos, x);
        assert(views(out@).to_multiset().add(views(rest@).to_multiset()) =~= views(sorted).to_multiset().add(
            views(before).to_multiset(),
        ));
    }
    assert(views(rest@) =~= Seq::<CheckResult>::empty());
    assert(views(out@).to_multiset() =~= views(items@).to_multiset());
    out
}

/// A sequence that holds the same results as an enumeration of `m`, each as
/// often, is an enumeration of `m` too.
pub proof fn lemma_permutation_enumerates(
    m: Map<StatusKey, CheckResult>,
    a: Seq<CheckResult>,
    b: Seq<CheckResult>,
)
    requires
        enumerates(m, a),
        a.to_multiset() == b.to_multiset(),
    ensures
        enumerates(m, b),
{
    broadcast use vstd::multiset::group_multiset_axioms;
    broadcast use vstd::seq_lib::group_to_multiset_ensures;

    assert(a.no_duplicates()) by {
        assert forall|i: int, j: int| 0 <= i < a.len() && 0 <= j < a.len() && i != j implies a[i] != a[j] by {
            if i < j {
                assert(a[i].key() != a[j].key());
            } else {
                assert(a[j].key() != a[i].key());
            }
        }
    }
    a.lemma_multiset_has_no_duplicates();
    b.lemma_multiset_has_no_duplicates_conv();
    assert forall|i: int| 0 <= i < b.len() implies m.contains_key((#[trigger] b[i]).key()) && m[b[i].key()]
        == b[i] by {
        assert(b.contains(b[i]));
        vstd::seq_lib::to_multiset_contains(b, b[i]);
        vstd::seq_lib::to_multiset_contains(a, b[i]);
        let p = choose|p: int| 0 <= p < a.len() && a[p] == b[i];
        assert(m.contains_key(a[p].key()));
    }
    assert forall|k: StatusKey| m.contains_key(k) implies exists|i: int|
        0 <= i < b.len() && (#[trigger] b[i]).key() == k by {
        let p = choose|p: int| 0 <= p < a.len() && (#[trigger] a[p]).key() == k;
        assert(a.contains(a[p]));
        vstd::seq_lib::to_multiset_contains(a, a[p]);
        vstd::seq_lib::to_multiset_contains(b, a[p]);
        let i = choose|i: int| 0 <= i < b.len() && b[i] == a[p];
        assert(b[i].key() == k);
    }
    assert forall|i: int, j: int| 0 <= i < j < b.len() implies (#[trigger] b[i]).key() != (#[trigger] b[j]).key() by {
        if b[i].key() == b[j].key() {
            assert(m[b[i].key()] == b[i]);
            assert(m[b[j].key()] == b[j]);
            assert(b[i] == b[j]);
        }
    }
}

/// Results in slot order that fill different slots are in ascending order.
pub proof fn lemma_ordered_distinct_ascends(l: Seq<CheckResult>)
    requires
        ordered(l),
        distinct_keys(l),
    ensures
        ascending(l),
{
    assert forall|i: int, j: int| 0 <= i < j < l.len() implies key_lt(
        (#[trigger] l[i]).key(),
        (#[trigger] l[j]).key(),
    ) by {
        assert(l[i].key() != l[j].key());
    }
}

/// A store has one listing only: the order of the slots decides it, whatever
/// order the results were stored or enumerated in.
pub proof fn lemma_listing_unique(m: Map<StatusKey, CheckResult>, a: Seq<CheckResult>, b: Seq<CheckResult>)
    requires
        lists(m, a),
        lists(m, b),
    ensures
        a == b,
    decreases a.len(),
{
    if a.len() == 0 {
        if b.len() > 0 {
            assert(m.contains_key(b[0].key()));
            let i = choose|i: int| 0 <= i < a.len() && (#[trigger] a[i]).key() == b[0].key();
        }
        assert(a =~= b);
    } else {
        let x = a.last();
        assert(m.contains_key(x.key()));
        let j = choose|j: int| 0 <= j < b.len() && (#[trigger] b[j]).key() == x.key();
        let y = b.last();
        assert(m.contains_key(y.key()));
        let i = choose|i: int| 0 <= i < a.len() && (#[trigger] a[i]).key() == y.key();
        if x.key() != y.key() {
            assert(key_lt(a[i].key(), x.key()));
            assert(key_lt(b[j].key(), y.key()));
            lemma_key_lt_asymmetric(x.key(), y.key());
        }
        assert(x == y);
        let k = x.key();
        let m2 = m.remove(k);
        let a2 = a.drop_last();
        let b2 = b.drop_last();
        lemma_drop_last_lists(m, a);
        lemma_drop_last_lists(m, b);
        lemma_listing_unique(m2, a2, b2);
        assert(a =~= a2.push(x));
        assert(b =~= b2.push(y));
    }
}

proof fn lemma_drop_last_lists(m: Map<StatusKey, CheckResult>, a: Seq<CheckResult>)
    requires
        lists(m, a),
        a.len() > 0,
    ensures
        lists(m.remove(a.last().key()), a.drop_last()),
{
    let k = a.last().key();
    let m2 = m.remove(k);
    let a2 = a.drop_last();
    assert forall|i: int, j: int| 0 <= i < j < a2.len() implies (#[trigger] a2[i]).key() != (#[trigger] a2[j]).key()
        && key_lt(a2[i].key(), a2[j].key()) by {
        assert(a[i].key() != a[j].key());
        assert(key_lt(a[i].key(), a[j].key()));
    }
    assert forall|i: int| 0 <= i < a2.len() implies m2.contains_key((#[trigger] a2[i]).key()) && m2[a2[i].key()]
        == a2[i] by {
        assert(a[i].key() != a[a.len() - 1].key());
        assert(m.contains_key(a[i].key()));
    }
    assert forall|q: StatusKey| m2.contains_key(q) implies exists|i: int|
        0 <= i < a2.len() && (#[trigger] a2[i]).key() == q by {
        let i = choose|i: int| 0 <= i < a.len() && (#[trigger] a[i]).key() == q;
        assert(a2[i].key() == q);
    }
}

/// The listing of `m`: its results in the order of their slots.
pub open spec fn listing(m: Map<StatusKey, CheckResult>) -> Seq<CheckResult> {
    choose|l: Seq<CheckResult>| lists(m, l)
}

/// Whatever lists `m` is its listing.
pub proof fn lemma_lists_is_listing(m: Map<StatusKey, CheckResult>, l: Seq<CheckResult>)
    requires
        lists(m, l),
    ensures
        l == listing(m),
        lists(m, listing(m)),
{
    lemma_listing_unique(m, l, listing(m));
}

/// Whether `m` has a listing: it holds finitely many results, each filed
/// under its own slot. Every store does.
pub open spec fn listable(m: Map<StatusKey, CheckResult>) -> bool {
    exists|l: Seq<CheckResult>| lists(m, l)
}

/// The listing of a store that has one lists it.
pub proof fn lemma_listing(m: Map<StatusKey, CheckResult>)
    requires
        listable(m),
    ensures
        lists(m, listing(m)),
{
}

/// What is picked out of results in ascending order, in their order, is in
/// ascending order too; each of the picked results meets the condition and
/// stands among the results they were picked from.
pub proof fn lemma_filter_ascends(l: Seq<CheckResult>, pred: spec_fn(CheckResult) -> bool)
    requires
        ascending(l),
    ensures
        ascending(l.filter(pred)),
        forall|i: int| 0 <= i < l.filter(pred).len() ==> pred(#[trigger] l.filter(pred)[i]) && l.contains(l.filter(pred)[i]),
    decreases l.len(),
{
    reveal(Seq::filter);
    if l.len() > 0 {
        let front = l.drop_last();
        let x = l.last();
        assert(ascending(front)) by {
            assert forall|i: int, j: int| 0 <= i < j < front.len() implies key_lt(
                (#[trigger] front[i]).key(),
                (#[trigger] front[j]).key(),
            ) by {
                assert(key_lt(l[i].key(), l[j].key()));
            }
        }
        lemma_filter_ascends(front, pred);
        let kept = front.filter(pred);
        let all = l.filter(pred);
        assert forall|i: int| 0 <= i < all.len() implies pred(#[trigger] all[i]) && l.contains(all[i]) by {
            if i < kept.len() {
                assert(all[i] == kept[i]);
                assert(front.contains(kept[i]));
                let q = choose|q: int| 0 <= q < front.len() && front[q] == kept[i];
                assert(l[q] == all[i]);
            } else {
                assert(l[l.len() - 1] == all[i]);
            }
        }
        assert forall|i: int, j: int| 0 <= i < j < all.len() implies key_lt(
            (#[trigger] all[i]).key(),
            (#[trigger] all[j]).key(),
        ) by {
            if j < kept.len() {
                assert(all[i] == kept[i] && all[j] == kept[j]);
            } else {
                assert(all[i] == kept[i]);
                assert(front.contains(kept[i]));
                let q = choose|q: int| 0 <= q < front.len() && front[q] == kept[i];
                assert(key_lt(l[q].key(), l[l.len() - 1].key()));
            }
        }
    }
}

/// A host with the results of its services.
pub struct HostGroup {
    pub host_name: Seq<char>,
    pub services: Seq<CheckResult>,
}

/// The plain values of a sequence of groups.
pub open spec fn group_views(g: Seq<(String, Vec<ServiceCheck>)>) -> Seq<HostGroup> {
    g.map_values(|p: (String, Vec<ServiceCheck>)| HostGroup { host_name: p.0@, services: views(p.1@) })
}

/// The results of `l` in runs of one host each: a result joins the group
/// before it when both name the same host, and opens a group when not.
pub open spec fn group_by_host(l: Seq<CheckResult>) -> Seq<HostGroup>
    decreases l.len(),
{
    if l.len() == 0 {
        Seq::empty()
    } else {
        let g = group_by_host(l.drop_last());
        let x = l.last();
        if g.len() > 0 && g.last().host_name == x.host_name {
            g.drop_last().push(HostGroup { host_name: x.host_name, services: g.last().services.push(x) })
        } else {
            g.push(HostGroup { host_name: x.host_name, services: seq![x] })
        }
    }
}

/// The results of all groups, one group after the other.
pub open spec fn services_of(g: Seq<HostGroup>) -> Seq<CheckResult>
    decreases g.len(),
{
    if g.len() == 0 {
        Seq::empty()
    } else {
        services_of(g.drop_last()) + g.last().services
    }
}

/// What a group holds: it is not empty, each result names the group's host,
/// and the group before it is of another host.
pub open spec fn well_grouped(g: Seq<HostGroup>) -> bool {
    &&& forall|i: int| 0 <= i < g.len() ==> (#[trigger] g[i]).services.len() > 0
    &&& forall|i: int, s: int|
        0 <= i < g.len() && 0 <= s < g[i].services.len() ==> (#[trigger] g[i].services[s]).host_name
            == g[i].host_name
    &&& forall|i: int| 0 < i < g.len() ==> g[i - 1].host_name != (#[trigger] g[i]).host_name
}

/// Grouping loses and reorders nothing, and its groups are runs of one host.
pub proof fn lemma_group_by_host(l: Seq<CheckResult>)
    ensures
        services_of(group_by_host(l)) == l,
        well_grouped(group_by_host(l)),
        l.len() > 0 ==> group_by_host(l).len() > 0 && group_by_host(l).last().host_name == l.last().host_name,
        l.len() == 0 ==> group_by_host(l).len() == 0,
    decreases l.len(),
{
    if l.len() > 0 {
        let front = l.drop_last();
        let g = group_by_host(front);
        let x = l.last();
        let g2 = group_by_host(l);
        lemma_group_by_host(front);
        if g.len() > 0 && g.last().host_name == x.host_name {
            assert(g2.drop_last() =~= g.drop_last());
            assert(services_of(g2) =~= services_of(g.drop_last()) + g.last().services.push(x));
            assert(services_of(g2) =~= front.push(x));
            assert forall|i: int| 0 < i < g2.len() implies g2[i - 1].host_name != (#[trigger] g2[i]).host_name by {
                assert(g[i - 1].host_name != g[i].host_name);
            }
            assert forall|i: int, s: int| 0 <= i < g2.len() && 0 <= s < g2[i].services.len() implies (
            #[trigger] g2[i].services[s]).host_name == g2[i].host_name by {
                if i < g2.len() - 1 {
                    assert(g2[i] == g[i]);
                } else if s < g.last().services.len() {
                    assert(g2[i].services[s] == g[i].services[s]);
                }
            }
        } else {
            assert(g2.drop_last() =~= g);
            assert(services_of(g2) =~= front.push(x));
            assert forall|i: int| 0 < i < g2.len() implies g2[i - 1].host_name != (#[trigger] g2[i]).host_name by {
                if i < g.len() {
                    assert(g[i - 1].host_name != g[i].host_name);
                }
            }
            assert forall|i: int, s: int| 0 <= i < g2.len() && 0 <= s < g2[i].services.len() implies (
            #[trigger] g2[i].services[s]).host_name == g2[i].host_name by {
                if i < g.len() {
                    assert(g2[i] == g[i]);
                }
            }
        }
        assert(front.push(x) =~= l);
    } else {
        assert(services_of(group_by_host(l)) =~= l);
    }
}

/// The groups of a listing stand in the order of their host names, each host
/// once.
pub proof fn lemma_group_names_ascend(l: Seq<CheckResult>)
    requires
        ascending(l),
    ensures
        forall|i: int, j: int|
            0 <= i < j < group_by_host(l).len() ==> text_lt(
                (#[trigger] group_by_host(l)[i]).host_name,
                (#[trigger] group_by_host(l)[j]).host_name,
            ),
    decreases l.len(),
{
    if l.len() > 0 {
        let front = l.drop_last();
        let g = group_by_host(front);
        let x = l.last();
        let g2 = group_by_host(l);
        assert(ascending(front)) by {
            assert forall|i: int, j: int| 0 <= i < j < front.len() implies key_lt(
                (#[trigger] front[i]).key(),
                (#[trigger] front[j]).key(),
            ) by {
                assert(key_lt(l[i].key(), l[j].key()));
            }
        }
        lemma_group_names_ascend(front);
        lemma_group_by_host(front);
        if g.len() > 0 && g.last().host_name == x.host_name {
            assert forall|i: int, j: int| 0 <= i < j < g2.len() implies text_lt(
                (#[trigger] g2[i]).host_name,
                (#[trigger] g2[j]).host_name,
            ) by {
                assert(g2[i].host_name == g[i].host_name);
                assert(g2[j].host_name == g[j].host_name);
            }
        } else {
            assert forall|i: int, j: int| 0 <= i < j < g2.len() implies text_lt(
                (#[trigger] g2[i]).host_name,
                (#[trigger] g2[j]).host_name,
            ) by {
                assert(g2[i] == g[i]);
                if j < g.len() {
                    assert(g2[j] == g[j]);
                } else {
                    let y = front.last();
                    assert(key_lt(l[l.len() - 2].key(), l[l.len() - 1].key()));
                    assert(text_lt(g.last().host_name, x.host_name));
                    if i < g.len() - 1 {
                        assert(text_lt(g[i].host_name, g[g.len() - 1].host_name));
                        lemma_text_lt_transitive(g[i].host_name, g.last().host_name, x.host_name);
                    }
                }
            }
        }
    }
}

/// Groups the results of `sorted` by host, run by run.
pub fn group_runs(sorted: &Vec<ServiceCheck>) -> (r: Vec<(String, Vec<ServiceCheck>)>)
    ensures
        group_views(r@) == group_by_host(views(sorted@)),
{
    let mut groups: Vec<(String, Vec<ServiceCheck>)> = Vec::new();
    let n = sorted.len();
    let mut i: usize = 0;
    assert(views(sorted@).take(0) =~= Seq::<CheckResult>::empty());
    assert(group_views(groups@) =~= Seq::<HostGroup>::empty());
    while i < n
        invariant
            i <= n,
            n == sorted@.len(),
            group_views(groups@) == group_by_host(views(sorted@).take(i as int)),
        decreases n - i,
    {
        let ghost done = group_views(groups@);
        let ghost upto = views(sorted@).take(i as int + 1);
        assert(upto.drop_last() =~= views(sorted@).take(i as int));
        assert(upto.last() == sorted@[i as int]@);
        let item = sorted[i].clone();
        let joins = groups.len() > 0 && groups[groups.len() - 1].0 == item.host_name;
        if joins {
            let ghost before = groups@;
            let (name, mut services) = groups.pop().unwrap();
            let ghost held = services@;
            services.push(item);
            assert(views(services@) =~= views(held).push(item@));
            groups.push((name, services));
            assert(group_views(groups@) =~= done.drop_last().push(
                HostGroup { host_name: item@.host_name, services: done.last().services.push(item@) },
            ));
        } else {
            let name = item.host_name.clone();
            let mut services: Vec<ServiceCheck> = Vec::new();
            services.push(item);
            assert(views(services@) =~= seq![item@]);
            groups.push((name, services));
            assert(group_views(groups@) =~= done.push(HostGroup { host_name: item@.host_name, services: seq![item@] }));
        }
        i += 1;
    }
    assert(views(sorted@).take(n as int) =~= views(sorted@));
    groups
}

} // verus!
