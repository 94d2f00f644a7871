use vstd::prelude::*;
use vstd::seq_lib::group_to_multiset_ensures;
use vstd::multiset::{Multiset, group_multiset_axioms};
use crate::types::Crate;
use crate::strutil::{seq_str_le, str_le, lemma_seq_str_le_refl, lemma_seq_str_le_total,
    lemma_seq_str_le_antisym, lemma_seq_str_le_trans};

verus! {

broadcast use group_to_multiset_ensures, group_multiset_axioms;

/// The total order in which persisted package lists are kept: registry
/// packages before source-repository packages, each kind ordered
/// lexicographically by its identity fields.
pub open spec fn spec_crate_le(a: Crate, b: Crate) -> bool {
    match (a, b) {
        (Crate::Registry(ra), Crate::Registry(rb)) => if ra.name@ != rb.name@ {
            seq_str_le(ra.name@, rb.name@)
        } else {
            seq_str_le(ra.version@, rb.version@)
        },
        (Crate::Registry(_), Crate::GitHub(_)) => true,
        (Crate::GitHub(_), Crate::Registry(_)) => false,
        (Crate::GitHub(ga), Crate::GitHub(gb)) => if ga.org@ != gb.org@ {
            seq_str_le(ga.org@, gb.org@)
        } else {
            seq_str_le(ga.name@, gb.name@)
        },
    }
}

pub proof fn lemma_crate_le_total(a: Crate, b: Crate)
    ensures
        spec_crate_le(a, b) || spec_crate_le(b, a),
{
    match (a, b) {
        (Crate::Registry(ra), Crate::Registry(rb)) => {
            lemma_seq_str_le_total(ra.name@, rb.name@);
            lemma_seq_str_le_total(ra.version@, rb.version@);
        },
        (Crate::GitHub(ga), Crate::GitHub(gb)) => {
            lemma_seq_str_le_total(ga.org@, gb.org@);
            lemma_seq_str_le_total(ga.name@, gb.name@);
        },
        _ => {},
    }
}

pub proof fn lemma_crate_le_refl(a: Crate)
    ensures
        spec_crate_le(a, a),
{
    match a {
        Crate::Registry(ra) => lemma_seq_str_le_refl(ra.version@),
        Crate::GitHub(ga) => lemma_seq_str_le_refl(ga.name@),
    }
}

pub proof fn lemma_crate_le_trans(a: Crate, b: Crate, c: Crate)
    requires
        spec_crate_le(a, b),
        spec_crate_le(b, c),
    ensures
        spec_crate_le(a, c),
{
    match (a, b, c) {
        (Crate::Registry(ra), Crate::Registry(rb), Crate::Registry(rc)) => {
            if ra.name@ == rb.name@ && rb.name@ == rc.name@ {
                lemma_seq_str_le_trans(ra.version@, rb.version@, rc.version@);
            } else if ra.name@ == rb.name@ || rb.name@ == rc.name@ {
            } else if ra.name@ == rc.name@ {
                lemma_seq_str_le_antisym(ra.name@, rb.name@);
            } else {
                lemma_seq_str_le_trans(ra.name@, rb.name@, rc.name@);
            }
        },
        (Crate::GitHub(ga), Crate::GitHub(gb), Crate::GitHub(gc)) => {
            if ga.org@ == gb.org@ && gb.org@ == gc.org@ {
                lemma_seq_str_le_trans(ga.name@, gb.name@, gc.name@);
            } else if ga.org@ == gb.org@ || gb.org@ == gc.org@ {
            } else if ga.org@ == gc.org@ {
                lemma_seq_str_le_antisym(ga.org@, gb.org@);
            } else {
                lemma_seq_str_le_trans(ga.org@, gb.org@, gc.org@);
            }
        },
        _ => {},
    }
}

/// Every element is `spec_crate_le` every later element.
pub open spec fn crates_sorted(s: Seq<Crate>) -> bool {
    forall|i: int, j: int| 0 <= i < j < s.len() ==> spec_crate_le(s[i], s[j])
}

/// Compares two packages in the order of `spec_crate_le`.
pub fn crate_le(a: &Crate, b: &Crate) -> (r: bool)
    ensures
        r == spec_crate_le(*a, *b),
{
    match (a, b) {
        (Crate::Registry(ra), Crate::Registry(rb)) => {
            if ra.name == rb.name {
                str_le(ra.version.as_str(), rb.version.as_str())
            } else {
                str_le(ra.name.as_str(), rb.name.as_str())
            }
        },
        (Crate::Registry(_), Crate::GitHub(_)) => true,
        (Crate::GitHub(_), Crate::Registry(_)) => false,
        (Crate::GitHub(ga), Crate::GitHub(gb)) => {
            if ga.org == gb.org {
                str_le(ga.name.as_str(), gb.name.as_str())
            } else {
                str_le(ga.org.as_str(), gb.org.as_str())
            }
        },
    }
}

/// Sorts a package list into the order of `spec_crate_le`, keeping
/// exactly the same packages (as a multiset).
pub fn sort_crates(v: Vec<Crate>) -> (r: Vec<Crate>)
    ensures
        r@.to_multiset() == v@.to_multiset(),
        crates_sorted(r@),
{
    let ghost orig: Seq<Crate> = v@;
    let mut rest = v;
    let mut out: Vec<Crate> = Vec::new();
    proof {
        assert(out@.to_multiset().add(rest@.to_multiset()) =~= orig.to_multiset());
    }
    while rest.len() > 0
        invariant
            out@.to_multiset().add(rest@.to_multiset()) == orig.to_multiset(),
            crates_sorted(out@),
            forall|p: int, q: int|
                0 <= p < out@.len() && 0 <= q < rest@.len() ==> spec_crate_le(out@[p], rest@[q]),
        decreases rest@.len(),
    {
        let mut m: usize = 0;
        let mut k: usize = 1;
        proof {
            lemma_crate_le_refl(rest@[0]);
        }
        while k < rest.len()
            invariant
                0 <= m < k <= rest@.len(),
                rest@.len() > 0,
                forall|q: int| 0 <= q < k ==> spec_crate_le(rest@[m as int], rest@[q]),
            decreases rest@.len() - k,
        {
            if !crate_le(&rest[m], &rest[k]) {
                proof {
                    lemma_crate_le_total(rest@[m as int], rest@[k as int]);
                    assert forall|q: int| 0 <= q < k + 1 implies spec_crate_le(
                        rest@[k as int],
                        rest@[q],
                    ) by {
                        if q < k {
                            lemma_crate_le_trans(rest@[k as int], rest@[m as int], rest@[q]);
                        } else {
                            lemma_crate_le_refl(rest@[k as int]);
                        }
                    }
                }
                m = k;
            }
            k = k + 1;
        }
        let ghost rest_before: Seq<Crate> = rest@;
        let x = rest.remove(m);
        out.push(x);
        proof {
            assert(rest_before.to_multiset().count(x) > 0);
            assert(out@.to_multiset().add(rest@.to_multiset()) =~= orig.to_multiset());
            assert forall|p: int, q: int|
                0 <= p < out@.len() && 0 <= q < rest@.len() implies spec_crate_le(
                out@[p],
                rest@[q],
            ) by {
                assert(rest@[q] == if q < m { rest_before[q] } else { rest_before[q + 1] });
                if p < out@.len() - 1 {
                } else {
                    assert(out@[p] == x);
                }
            }
        }
    }
    proof {
        assert(rest@.to_multiset() =~= Multiset::empty());
        assert(out@.to_multiset() =~= orig.to_multiset());
    }
    out
}

} // verus!
