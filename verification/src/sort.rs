use vstd::prelude::*;

use crate::manifest::{dep_entries_view, entries_view, DepEntry, MapEntry};
use vstd::multiset::Multiset;
use crate::text::{lemma_lex_le_total, lemma_lex_le_trans, lex_le, str_le};

verus! {

/// Entries stand in nondecreasing name order: the order of every rendered
/// list.
pub open spec fn sorted_entries(s: Seq<(Seq<char>, Seq<char>)>) -> bool {
    forall|i: int, j: int| 0 <= i < j < s.len() ==> lex_le(#[trigger] s[i].0, #[trigger] s[j].0)
}

/// Inserting an element anywhere in a sequence inserts it into the
/// sequence's multiset.
pub proof fn lemma_to_multiset_insert<A>(s: Seq<A>, i: int, e: A)
    requires
        0 <= i <= s.len(),
    ensures
        s.insert(i, e).to_multiset() =~= s.to_multiset().insert(e),
{
    broadcast use vstd::seq_lib::group_to_multiset_ensures;
    broadcast use vstd::multiset::group_multiset_axioms;

    let t = s.insert(i, e);
    assert(t.remove(i) =~= s);
    assert(t[i] == e);
    assert(t.to_multiset().remove(e) =~= s.to_multiset());
    assert(t.contains(e));
    assert(t.to_multiset().count(e) > 0);
    assert forall|x: A| t.to_multiset().count(x) == s.to_multiset().insert(e).count(x) by {
        if x == e {
            assert(t.to_multiset().remove(e).count(e) == t.to_multiset().count(e) - 1);
        } else {
            assert(t.to_multiset().remove(e).count(x) == t.to_multiset().count(x));
        }
    }
    assert(t.to_multiset() =~= s.to_multiset().insert(e));
}

/// Inserts one entry into a list sorted by name, keeping it sorted.
#[verifier::loop_isolation(false)]
fn insert_entry(out: Vec<MapEntry>, e: MapEntry) -> (r: Vec<MapEntry>)
    requires
        sorted_entries(entries_view(out@)),
    ensures
        sorted_entries(entries_view(r@)),
        entries_view(r@).to_multiset() == entries_view(out@).to_multiset().insert(e@),
{
    let ghost ev = entries_view(out@);
    let mut k: usize = 0;
    let mut stop = false;
    while !stop
        invariant
            k <= out@.len(),
            forall|j: int| 0 <= j < k ==> lex_le(#[trigger] ev[j].0, e@.0),
            stop ==> k == out@.len() || lex_le(e@.0, ev[k as int].0),
        decreases out@.len() - k + if stop { 0int } else { 1int },
    {
        if k == out.len() {
            stop = true;
        } else {
            proof {
                assert(ev[k as int] == (out@[k as int].name@, out@[k as int].value@));
            }
            if str_le(e.name.as_str(), out[k].name.as_str()) {
                stop = true;
            } else {
                proof {
                    lemma_lex_le_total(e@.0, ev[k as int].0);
                }
                k = k + 1;
            }
        }
    }
    let mut r = out;
    r.insert(k, e);
    proof {
        let rv = entries_view(r@);
        assert(rv =~= ev.insert(k as int, e@));
        assert forall|i: int, j: int| 0 <= i < j < rv.len() implies lex_le(
            #[trigger] rv[i].0,
            #[trigger] rv[j].0,
        ) by {
            if i == k {
                assert(rv[j] == ev[j - 1]);
                if j - 1 > k {
                    lemma_lex_le_trans(e@.0, ev[k as int].0, ev[j - 1].0);
                }
            } else if j == k {
                assert(rv[i] == ev[i]);
            } else if i < k && j > k {
                assert(rv[i] == ev[i]);
                assert(rv[j] == ev[j - 1]);
                if i < j - 1 {
                } else {
                    lemma_lex_le_total(ev[i].0, ev[j - 1].0);
                }
            } else if j < k {
                assert(rv[i] == ev[i]);
                assert(rv[j] == ev[j]);
            } else {
                assert(rv[i] == ev[i - 1]);
                assert(rv[j] == ev[j - 1]);
            }
        }
        lemma_to_multiset_insert(ev, k as int, e@);
    }
    r
}

/// Sorts a manifest map's entries ascending by name. The multiset of entries
/// is kept: nothing is added, dropped, or rewritten.
#[verifier::loop_isolation(false)]
pub fn sort_entries(v: Vec<MapEntry>) -> (r: Vec<MapEntry>)
    ensures
        sorted_entries(entries_view(r@)),
        entries_view(r@).to_multiset() == entries_view(v@).to_multiset(),
{
    broadcast use vstd::seq_lib::group_to_multiset_ensures;
    broadcast use vstd::multiset::group_multiset_axioms;

    let ghost orig = entries_view(v@);
    let mut v = v;
    let mut out: Vec<MapEntry> = Vec::new();
    proof {
        assert(entries_view(out@) =~= Seq::<(Seq<char>, Seq<char>)>::empty());
        assert(entries_view(out@).to_multiset().add(entries_view(v@).to_multiset())
            =~= orig.to_multiset());
    }
    while v.len() > 0
        invariant
            sorted_entries(entries_view(out@)),
            entries_view(out@).to_multiset().add(entries_view(v@).to_multiset())
                == orig.to_multiset(),
        decreases v@.len(),
    {
        let ghost vv = entries_view(v@);
        let ghost ov = entries_view(out@);
        let e = v.remove(0);
        out = insert_entry(out, e);
        proof {
            assert(vv.len() > 0);
            assert(entries_view(v@) =~= vv.remove(0));
            assert(vv.remove(0).to_multiset() =~= vv.to_multiset().remove(vv[0]));
            assert(vv[0] == e@);
            assert(vv.contains(e@));
            assert(vv.to_multiset().count(e@) > 0);
            assert forall|x: (Seq<char>, Seq<char>)|
                entries_view(out@).to_multiset().add(entries_view(v@).to_multiset()).count(x)
                    == orig.to_multiset().count(x) by {
                assert(entries_view(out@).to_multiset().count(x) == ov.to_multiset().insert(
                    e@,
                ).count(x));
                assert(entries_view(v@).to_multiset().count(x) == vv.to_multiset().remove(
                    e@,
                ).count(x));
            }
            assert(entries_view(out@).to_multiset().add(entries_view(v@).to_multiset())
                =~= orig.to_multiset());
        }
    }
    proof {
        assert(entries_view(v@).to_multiset().len() == entries_view(v@).len());
        assert(entries_view(v@).to_multiset() =~= Multiset::<(Seq<char>, Seq<char>)>::empty());
        assert(entries_view(out@).to_multiset() =~= orig.to_multiset());
    }
    out
}

/// Dependency entries stand in nondecreasing name order.
pub open spec fn sorted_deps(s: Seq<(Seq<char>, Seq<char>, Option<Seq<char>>)>) -> bool {
    forall|i: int, j: int| 0 <= i < j < s.len() ==> lex_le(#[trigger] s[i].0, #[trigger] s[j].0)
}

/// Inserts one dependency entry into a list sorted by name, keeping it
/// sorted.
#[verifier::loop_isolation(false)]
fn insert_dep(out: Vec<DepEntry>, e: DepEntry) -> (r: Vec<DepEntry>)
    requires
        sorted_deps(dep_entries_view(out@)),
    ensures
        sorted_deps(dep_entries_view(r@)),
        dep_entries_view(r@).to_multiset() == dep_entries_view(out@).to_multiset().insert(e@),
{
    let ghost ev = dep_entries_view(out@);
    let mut k: usize = 0;
    let mut stop = false;
    while !stop
        invariant
            k <= out@.len(),
            forall|j: int| 0 <= j < k ==> lex_le(#[trigger] ev[j].0, e@.0),
            stop ==> k == out@.len() || lex_le(e@.0, ev[k as int].0),
        decreases out@.len() - k + if stop { 0int } else { 1int },
    {
        if k == out.len() {
            stop = true;
        } else {
            proof {
                assert(ev[k as int] == out@[k as int]@);
            }
            if str_le(e.name.as_str(), out[k].name.as_str()) {
                stop = true;
            } else {
                proof {
                    lemma_lex_le_total(e@.0, ev[k as int].0);
                }
                k = k + 1;
            }
        }
    }
    let mut r = out;
    r.insert(k, e);
    proof {
        let rv = dep_entries_view(r@);
        assert(rv =~= ev.insert(k as int, e@));
        assert forall|i: int, j: int| 0 <= i < j < rv.len() implies lex_le(
            #[trigger] rv[i].0,
            #[trigger] rv[j].0,
        ) by {
            if i == k {
                assert(rv[j] == ev[j - 1]);
                if j - 1 > k {
                    lemma_lex_le_trans(e@.0, ev[k as int].0, ev[j - 1].0);
                }
            } else if j == k {
                assert(rv[i] == ev[i]);
            } else if i < k && j > k {
                assert(rv[i] == ev[i]);
                assert(rv[j] == ev[j - 1]);
                if i < j - 1 {
                } else {
                    lemma_lex_le_total(ev[i].0, ev[j - 1].0);
                }
            } else if j < k {
                assert(rv[i] == ev[i]);
                assert(rv[j] == ev[j]);
            } else {
                assert(rv[i] == ev[i - 1]);
                assert(rv[j] == ev[j - 1]);
            }
        }
        lemma_to_multiset_insert(ev, k as int, e@);
    }
    r
}

/// Sorts dependency entries ascending by name. The multiset of entries is
/// kept: nothing is added, dropped, or rewritten.
#[verifier::loop_isolation(false)]
pub fn sort_dep_entries(v: Vec<DepEntry>) -> (r: Vec<DepEntry>)
    ensures
        sorted_deps(dep_entries_view(r@)),
        dep_entries_view(r@).to_multiset() == dep_entries_view(v@).to_multiset(),
{
    broadcast use vstd::seq_lib::group_to_multiset_ensures;
    broadcast use vstd::multiset::group_multiset_axioms;

    let ghost orig = dep_entries_view(v@);
    let mut v = v;
    let mut out: Vec<DepEntry> = Vec::new();
    proof {
        assert(dep_entries_view(out@) =~= Seq::<(Seq<char>, Seq<char>, Option<Seq<char>>)>::empty());
        assert(dep_entries_view(out@).to_multiset().add(dep_entries_view(v@).to_multiset())
            =~= orig.to_multiset());
    }
    while v.len() > 0
        invariant
            sorted_deps(dep_entries_view(out@)),
            dep_entries_view(out@).to_multiset().add(dep_entries_view(v@).to_multiset())
                == orig.to_multiset(),
        decreases v@.len(),
    {
        let ghost vv = dep_entries_view(v@);
        let ghost ov = dep_entries_view(out@);
        let e = v.remove(0);
        out = insert_dep(out, e);
        proof {
            assert(vv.len() > 0);
            assert(dep_entries_view(v@) =~= vv.remove(0));
            assert(vv.remove(0).to_multiset() =~= vv.to_multiset().remove(vv[0]));
            assert(vv[0] == e@);
            assert(vv.contains(e@));
            assert(vv.to_multiset().count(e@) > 0);
            assert forall|x: (Seq<char>, Seq<char>, Option<Seq<char>>)|
                dep_entries_view(out@).to_multiset().add(
                    dep_entries_view(v@).to_multiset(),
                ).count(x) == orig.to_multiset().count(x) by {
                assert(dep_entries_view(out@).to_multiset().count(x) == ov.to_multiset().insert(
                    e@,
                ).count(x));
                assert(dep_entries_view(v@).to_multiset().count(x) == vv.to_multiset().remove(
                    e@,
                ).count(x));
            }
            assert(dep_entries_view(out@).to_multiset().add(dep_entries_view(v@).to_multiset())
                =~= orig.to_multiset());
        }
    }
    proof {
        assert(dep_entries_view(v@).to_multiset().len() == dep_entries_view(v@).len());
        assert(dep_entries_view(v@).to_multiset() =~= Multiset::<
            (Seq<char>, Seq<char>, Option<Seq<char>>),
        >::empty());
        assert(dep_entries_view(out@).to_multiset() =~= orig.to_multiset());
    }
    out
}

} // verus!
