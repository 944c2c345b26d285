use vstd::prelude::*;

use crate::json::{lookup, Json};
use crate::lists::{
    failed_names, is_deps_listing, is_scripts_listing, is_sorted_perm, resolved_entries,
};
use crate::manifest::{manifest_of_json, ManifestV};
use crate::render::{
    dep_list_spans, header_spans, script_block, script_list_spans, section_spans, Style,
};
use crate::sort::sorted_entries;
use crate::text::{dec_str, lemma_lex_le_antisym, lemma_lex_le_refl, lex_le};

verus! {

/// Listing is repeatable: a sorted arrangement of entries is unique once no
/// two entries share a name, so any two runs over the same manifest and the
/// same resolved dependencies render the very same sequence of spans — the
/// output is a function of the project's files.
pub proof fn lemma_sorted_permutation_unique<A>(a: Seq<A>, b: Seq<A>, name: spec_fn(A) -> Seq<
    char,
>)
    requires
        forall|i: int, j: int|
            0 <= i < j < a.len() ==> lex_le(#[trigger] name(a[i]), #[trigger] name(a[j])),
        forall|i: int, j: int|
            0 <= i < j < b.len() ==> lex_le(#[trigger] name(b[i]), #[trigger] name(b[j])),
        a.to_multiset() == b.to_multiset(),
        forall|i: int, j: int|
            0 <= i < j < a.len() ==> #[trigger] name(a[i]) != #[trigger] name(a[j]),
    ensures
        a == b,
    decreases a.len(),
{
    broadcast use vstd::seq_lib::group_to_multiset_ensures;
    broadcast use vstd::multiset::group_multiset_axioms;

    if a.len() == 0 {
        assert(b.to_multiset().len() == 0);
        assert(a =~= b);
    } else {
        assert(a.to_multiset().len() == a.len());
        assert(b.to_multiset().len() == b.len());
        assert(a.contains(a[0]));
        assert(a.to_multiset().count(a[0]) > 0);
        assert(b.to_multiset().count(a[0]) > 0);
        assert(b.contains(a[0]));
        let ib = choose|i: int| 0 <= i < b.len() && b[i] == a[0];
        assert(b.contains(b[0]));
        assert(a.to_multiset().count(b[0]) > 0);
        assert(a.contains(b[0]));
        let ia = choose|i: int| 0 <= i < a.len() && a[i] == b[0];
        lemma_lex_le_refl(name(a[0]));
        lemma_lex_le_refl(name(b[0]));
        if ia > 0 {
            assert(lex_le(name(a[0]), name(a[ia])));
        }
        if ib > 0 {
            assert(lex_le(name(b[0]), name(b[ib])));
        }
        assert(lex_le(name(a[0]), name(b[0])));
        assert(lex_le(name(b[0]), name(a[0])));
        lemma_lex_le_antisym(name(a[0]), name(b[0]));
        assert(name(a[ia]) == name(a[0]));
        assert(ia == 0);
        assert(a[0] == b[0]);
        let at = a.drop_first();
        let bt = b.drop_first();
        assert(at =~= a.remove(0));
        assert(bt =~= b.remove(0));
        assert(at.to_multiset() =~= a.to_multiset().remove(a[0]));
        assert(bt.to_multiset() =~= b.to_multiset().remove(b[0]));
        assert(at.to_multiset() == bt.to_multiset());
        assert(forall|i: int| 0 <= i < at.len() ==> at[i] == a[i + 1]);
        assert(forall|i: int| 0 <= i < bt.len() ==> bt[i] == b[i + 1]);
        assert forall|i: int, j: int| 0 <= i < j < at.len() implies lex_le(
            #[trigger] name(at[i]),
            #[trigger] name(at[j]),
        ) by {
            assert(lex_le(name(a[i + 1]), name(a[j + 1])));
        }
        assert forall|i: int, j: int| 0 <= i < j < bt.len() implies lex_le(
            #[trigger] name(bt[i]),
            #[trigger] name(bt[j]),
        ) by {
            assert(lex_le(name(b[i + 1]), name(b[j + 1])));
        }
        assert forall|i: int, j: int| 0 <= i < j < at.len() implies #[trigger] name(at[i])
            != #[trigger] name(at[j]) by {
            assert(name(a[i + 1]) != name(a[j + 1]));
        }
        lemma_sorted_permutation_unique(at, bt, name);
        assert forall|i: int| 0 <= i < a.len() implies a[i] == b[i] by {
            if i > 0 {
                assert(at[i - 1] == bt[i - 1]);
            }
        }
        assert(a =~= b);
    }
}

/// No two entries of a sequence share a name.
pub open spec fn distinct_names<A>(s: Seq<A>, name: spec_fn(A) -> Seq<char>) -> bool {
    forall|i: int, j: int|
        0 <= i < j < s.len() ==> #[trigger] name(s[i]) != #[trigger] name(s[j])
}

/// Rearranging entries cannot make two of them share a name.
pub proof fn lemma_distinct_names_transfer<A>(s: Seq<A>, t: Seq<A>, name: spec_fn(A) -> Seq<
    char,
>)
    requires
        s.to_multiset() == t.to_multiset(),
        distinct_names(s, name),
    ensures
        distinct_names(t, name),
{
    broadcast use vstd::seq_lib::group_to_multiset_ensures;
    broadcast use vstd::multiset::group_multiset_axioms;

    assert forall|i: int, j: int| 0 <= i < j < t.len() implies #[trigger] name(t[i])
        != #[trigger] name(t[j]) by {
        if name(t[i]) == name(t[j]) {
            if t[i] == t[j] {
                let x = t[i];
                let tr = t.remove(j);
                assert(tr.to_multiset() =~= t.to_multiset().remove(x));
                assert(tr[i] == x);
                assert(tr.contains(x));
                assert(tr.to_multiset().count(x) > 0);
                assert(t.to_multiset().count(x) >= 2);
                assert(s.to_multiset().count(x) >= 2);
                assert(s.to_multiset().count(x) > 0);
                assert(s.contains(x));
                let k1 = choose|k: int| 0 <= k < s.len() && s[k] == x;
                let sr = s.remove(k1);
                assert(sr.to_multiset() =~= s.to_multiset().remove(x));
                assert(sr.to_multiset().count(x) > 0);
                assert(sr.contains(x));
                let k2 = choose|k: int| 0 <= k < sr.len() && sr[k] == x;
                if k2 < k1 {
                    assert(sr[k2] == s[k2]);
                    assert(name(s[k2]) == name(s[k1]));
                } else {
                    assert(sr[k2] == s[k2 + 1]);
                    assert(name(s[k1]) == name(s[k2 + 1]));
                }
            } else {
                assert(t.contains(t[i]));
                assert(t.to_multiset().count(t[i]) > 0);
                assert(s.to_multiset().count(t[i]) > 0);
                assert(s.contains(t[i]));
                assert(t.contains(t[j]));
                assert(t.to_multiset().count(t[j]) > 0);
                assert(s.to_multiset().count(t[j]) > 0);
                assert(s.contains(t[j]));
                let k1 = choose|k: int| 0 <= k < s.len() && s[k] == t[i];
                let k2 = choose|k: int| 0 <= k < s.len() && s[k] == t[j];
                assert(k1 != k2);
                assert(name(s[k1]) == name(s[k2]));
            }
        }
    }
}

/// Once no two scripts share a name, the script listing's contract admits
/// one output only: two runs over the same manifest render the very same
/// spans.
pub proof fn lemma_scripts_listing_unique(
    mv: ManifestV,
    out1: Seq<(Style, Seq<char>)>,
    out2: Seq<(Style, Seq<char>)>,
)
    requires
        is_scripts_listing(mv, out1),
        is_scripts_listing(mv, out2),
        distinct_names(mv.scripts, (|e: (Seq<char>, Seq<char>)| e.0)),
    ensures
        out1 == out2,
{
    let nm = |e: (Seq<char>, Seq<char>)| e.0;
    let es1 = choose|es: Seq<(Seq<char>, Seq<char>)>|
        sorted_entries(es) && es.to_multiset() == mv.scripts.to_multiset() && out1 == header_spans(
            mv.name,
            mv.version,
            mv.description,
        ) + script_list_spans(es);
    let es2 = choose|es: Seq<(Seq<char>, Seq<char>)>|
        sorted_entries(es) && es.to_multiset() == mv.scripts.to_multiset() && out2 == header_spans(
            mv.name,
            mv.version,
            mv.description,
        ) + script_list_spans(es);
    lemma_distinct_names_transfer(mv.scripts, es1, nm);
    assert forall|i: int, j: int| 0 <= i < j < es1.len() implies lex_le(
        #[trigger] nm(es1[i]),
        #[trigger] nm(es1[j]),
    ) by {
        assert(lex_le(es1[i].0, es1[j].0));
    }
    assert forall|i: int, j: int| 0 <= i < j < es2.len() implies lex_le(
        #[trigger] nm(es2[i]),
        #[trigger] nm(es2[j]),
    ) by {
        assert(lex_le(es2[i].0, es2[j].0));
    }
    lemma_sorted_permutation_unique(es1, es2, nm);
}

/// Once no two resolved dependencies of a map share a name, the dependency
/// listing's contract admits one output only: two runs over the same
/// manifest and the same read results render the very same spans.
pub proof fn lemma_deps_listing_unique(
    mv: ManifestV,
    dep_texts: Seq<Result<Seq<char>, Seq<char>>>,
    dev_texts: Seq<Result<Seq<char>, Seq<char>>>,
    out1: Seq<(Style, Seq<char>)>,
    out2: Seq<(Style, Seq<char>)>,
)
    requires
        is_deps_listing(mv, dep_texts, dev_texts, out1),
        is_deps_listing(mv, dep_texts, dev_texts, out2),
        distinct_names(
            resolved_entries(mv.dependencies, dep_texts),
            (|e: (Seq<char>, Seq<char>, Option<Seq<char>>)| e.0),
        ),
        distinct_names(
            resolved_entries(mv.dev_dependencies, dev_texts),
            (|e: (Seq<char>, Seq<char>, Option<Seq<char>>)| e.0),
        ),
    ensures
        out1 == out2,
{
    let nm = |e: (Seq<char>, Seq<char>, Option<Seq<char>>)| e.0;
    let (ds1, devs1) = choose|
        ds: Seq<(Seq<char>, Seq<char>, Option<Seq<char>>)>,
        devs: Seq<(Seq<char>, Seq<char>, Option<Seq<char>>)>,
    |
        {
            &&& #[trigger] is_sorted_perm(ds, resolved_entries(mv.dependencies, dep_texts))
            &&& #[trigger] is_sorted_perm(devs, resolved_entries(mv.dev_dependencies, dev_texts))
            &&& out1 == header_spans(mv.name, mv.version, mv.description) + section_spans(
                "Dependencies: "@,
                ds,
            ) + section_spans("Dev Dependencies: "@, devs)
        };
    let (ds2, devs2) = choose|
        ds: Seq<(Seq<char>, Seq<char>, Option<Seq<char>>)>,
        devs: Seq<(Seq<char>, Seq<char>, Option<Seq<char>>)>,
    |
        {
            &&& #[trigger] is_sorted_perm(ds, resolved_entries(mv.dependencies, dep_texts))
            &&& #[trigger] is_sorted_perm(devs, resolved_entries(mv.dev_dependencies, dev_texts))
            &&& out2 == header_spans(mv.name, mv.version, mv.description) + section_spans(
                "Dependencies: "@,
                ds,
            ) + section_spans("Dev Dependencies: "@, devs)
        };
    lemma_distinct_names_transfer(resolved_entries(mv.dependencies, dep_texts), ds1, nm);
    lemma_distinct_names_transfer(resolved_entries(mv.dev_dependencies, dev_texts), devs1, nm);
    assert forall|i: int, j: int| 0 <= i < j < ds1.len() implies lex_le(
        #[trigger] nm(ds1[i]),
        #[trigger] nm(ds1[j]),
    ) by {
        assert(lex_le(ds1[i].0, ds1[j].0));
    }
    assert forall|i: int, j: int| 0 <= i < j < ds2.len() implies lex_le(
        #[trigger] nm(ds2[i]),
        #[trigger] nm(ds2[j]),
    ) by {
        assert(lex_le(ds2[i].0, ds2[j].0));
    }
    lemma_sorted_permutation_unique(ds1, ds2, nm);
    assert forall|i: int, j: int| 0 <= i < j < devs1.len() implies lex_le(
        #[trigger] nm(devs1[i]),
        #[trigger] nm(devs1[j]),
    ) by {
        assert(lex_le(devs1[i].0, devs1[j].0));
    }
    assert forall|i: int, j: int| 0 <= i < j < devs2.len() implies lex_le(
        #[trigger] nm(devs2[i]),
        #[trigger] nm(devs2[j]),
    ) by {
        assert(lex_le(devs2[i].0, devs2[j].0));
    }
    lemma_sorted_permutation_unique(devs1, devs2, nm);
}

/// A script listing holds exactly one block for each script entry, in the
/// order of the entries: five spans per entry, the k-th block being the
/// block of the k-th entry — its name, then its command line.
pub proof fn lemma_script_list_structure(es: Seq<(Seq<char>, Seq<char>)>)
    ensures
        script_list_spans(es).len() == 5 * es.len(),
        forall|k: int|
            0 <= k < es.len() ==> #[trigger] script_list_spans(es).subrange(5 * k, 5 * k + 5)
                == script_block(es[k]),
    decreases es.len(),
{
    if es.len() == 0 {
    } else {
        lemma_script_list_structure(es.drop_last());
        let pre = script_list_spans(es.drop_last());
        let whole = script_list_spans(es);
        assert(whole == pre + script_block(es.last()));
        assert forall|k: int| 0 <= k < es.len() implies #[trigger] whole.subrange(
            5 * k,
            5 * k + 5,
        ) == script_block(es[k]) by {
            if k < es.len() - 1 {
                assert(whole.subrange(5 * k, 5 * k + 5) =~= pre.subrange(5 * k, 5 * k + 5));
                assert(es.drop_last()[k] == es[k]);
            } else {
                assert(whole.subrange(5 * k, 5 * k + 5) =~= script_block(es.last()));
            }
        }
    }
}

/// Every declared dependency either resolves into an entry or fails into a
/// diagnostic name: the count a section renders — the number of resolved
/// entries — and the number of diagnostics add up to the number declared.
pub proof fn lemma_resolved_partition(
    decls: Seq<(Seq<char>, Seq<char>)>,
    texts: Seq<Result<Seq<char>, Seq<char>>>,
)
    requires
        decls.len() == texts.len(),
    ensures
        resolved_entries(decls, texts).len() + failed_names(decls, texts).len() == decls.len(),
    decreases decls.len(),
{
    if decls.len() == 0 {
    } else {
        lemma_resolved_partition(decls.drop_last(), texts.drop_last());
    }
}

/// The summary line of a section renders the count of the entries that stand
/// in the section itself — the resolved entries it goes on to list — and not
/// any other number.
pub proof fn lemma_section_counts_entries(
    label: Seq<char>,
    ds: Seq<(Seq<char>, Seq<char>, Option<Seq<char>>)>,
)
    ensures
        section_spans(label, ds)[1] == (Style::Neutral, dec_str(ds.len())),
        section_spans(label, ds).len() == 3 + dep_list_spans(ds).len(),
{
}

/// An empty dependency map renders as a count of zero followed by no entry
/// blocks, and is no error.
pub proof fn lemma_empty_section(label: Seq<char>)
    ensures
        section_spans(label, Seq::empty()) =~= seq![
            (Style::Label, label),
            (Style::Neutral, seq!['0']),
            (Style::Neutral, "\n"@),
        ],
{
    assert(dec_str(0) =~= seq!['0']);
}

/// A manifest whose optional fields are all absent still loads: the
/// description is absent and every map is empty, rather than any error.
pub proof fn lemma_missing_optionals_default(j: Json)
    requires
        j matches Json::Obj(fields),
        lookup(j->Obj_0@, "name"@) matches Some(n) && n is Str,
        lookup(j->Obj_0@, "version"@) matches Some(v) && v is Str,
        lookup(j->Obj_0@, "description"@) is None,
        lookup(j->Obj_0@, "scripts"@) is None,
        lookup(j->Obj_0@, "dependencies"@) is None,
        lookup(j->Obj_0@, "devDependencies"@) is None,
    ensures
        manifest_of_json(j) matches Some(mv) && mv.description is None && mv.scripts
            == Seq::<(Seq<char>, Seq<char>)>::empty() && mv.dependencies == Seq::<
            (Seq<char>, Seq<char>),
        >::empty() && mv.dev_dependencies == Seq::<(Seq<char>, Seq<char>)>::empty(),
{
}

} // verus!
