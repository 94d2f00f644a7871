use vstd::prelude::*;
use vstd::seq_lib::group_to_multiset_ensures;
use vstd::seq_lib::lemma_multiset_commutative;
use vstd::multiset::group_multiset_axioms;
use rand::seq::SliceRandom;
use crate::types::{Crate, GitHubRepo, ExCrateSelect, duplicate_crates};
use crate::errors::ExError;
use crate::order::{crates_sorted, sort_crates};
use crate::strutil::str_ends_with;

verus! {

broadcast use group_to_multiset_ensures, group_multiset_axioms;

/// How many packages a small random selection draws from the corpus.
pub const SMALL_RANDOM_COUNT: usize = 20;

/// The views of a list of strings.
pub open spec fn str_views(s: Seq<String>) -> Seq<Seq<char>> {
    s.map_values(|x: String| x@)
}

/// The same names with later repetitions dropped: each name keeps its
/// first occurrence only.
pub open spec fn dedup_views(s: Seq<Seq<char>>) -> Seq<Seq<char>>
    decreases s.len(),
{
    if s.len() == 0 {
        Seq::<Seq<char>>::empty()
    } else {
        let rest = dedup_views(s.drop_last());
        if rest.contains(s.last()) {
            rest
        } else {
            rest.push(s.last())
        }
    }
}

pub proof fn lemma_dedup_views(s: Seq<Seq<char>>)
    ensures
        dedup_views(s).no_duplicates(),
        dedup_views(s).len() <= s.len(),
        forall|v: Seq<char>| dedup_views(s).contains(v) <==> s.contains(v),
    decreases s.len(),
{
    if s.len() == 0 {
    } else {
        let rest = dedup_views(s.drop_last());
        lemma_dedup_views(s.drop_last());
        assert forall|v: Seq<char>| dedup_views(s).contains(v) implies s.contains(v) by {
            let d = dedup_views(s);
            let i = choose|i: int| 0 <= i < d.len() && d[i] == v;
            if i < rest.len() {
                assert(rest[i] == v);
                assert(rest.contains(v));
                assert(s.drop_last().contains(v));
                let w = choose|w: int|
                    0 <= w < s.drop_last().len() && s.drop_last()[w] == v;
                assert(s[w] == v);
            } else {
                assert(v == s.last());
                assert(s[s.len() - 1] == v);
            }
        }
        assert forall|v: Seq<char>| s.contains(v) implies dedup_views(s).contains(v) by {
            let i = choose|i: int| 0 <= i < s.len() && s[i] == v;
            if i < s.len() - 1 {
                assert(s.drop_last()[i] == v);
                assert(s.drop_last().contains(v));
                assert(rest.contains(v));
                let w = choose|w: int| 0 <= w < rest.len() && rest[w] == v;
                if !rest.contains(s.last()) {
                    assert(rest.push(s.last())[w] == v);
                }
            } else {
                if rest.contains(s.last()) {
                    assert(v == s.last());
                } else {
                    assert(rest.push(s.last()).last() == v);
                }
            }
        }
        if !rest.contains(s.last()) {
            assert forall|i: int, j: int|
                0 <= i < dedup_views(s).len() && 0 <= j < dedup_views(s).len() && i != j
                implies dedup_views(s)[i] != dedup_views(s)[j] by {
                if i < rest.len() && j < rest.len() {
                } else if i < rest.len() {
                    assert(rest[i] == dedup_views(s)[i]);
                } else if j < rest.len() {
                    assert(rest[j] == dedup_views(s)[j]);
                }
            }
        }
    }
}

/// True when some entry of the curated repository list ends the
/// repository's address.
pub open spec fn matches_repo_list(repos: Seq<Seq<char>>, g: GitHubRepo) -> bool {
    exists|i: int| 0 <= i < repos.len() && repos[i].is_suffix_of(g.url_view())
}

/// The packages a demo selection keeps, walking the corpus in order:
/// a registry package is kept when its name is among the names not yet
/// matched (each name matches at most once); a source-repository
/// package is kept when some curated suffix ends its address.
pub open spec fn demo_filter(corpus: Seq<Crate>, names: Seq<Seq<char>>, repos: Seq<Seq<char>>)
    -> Seq<Crate>
    decreases corpus.len(),
{
    if corpus.len() == 0 {
        Seq::<Crate>::empty()
    } else {
        let rest = corpus.drop_first();
        match corpus[0] {
            Crate::Registry(rc) => if names.contains(rc.name@) {
                seq![corpus[0]] + demo_filter(rest, names.remove(names.index_of(rc.name@)), repos)
            } else {
                demo_filter(rest, names, repos)
            },
            Crate::GitHub(g) => if matches_repo_list(repos, g) {
                seq![corpus[0]] + demo_filter(rest, names, repos)
            } else {
                demo_filter(rest, names, repos)
            },
        }
    }
}

/// Relies on rand's `SliceRandom::shuffle`: it permutes the slice in
/// place, so the multiset of elements is unchanged. Which permutation
/// comes out depends on the thread-local generator and is not stated.
#[verifier::external_body]
fn shuffle_crates(v: &mut Vec<Crate>)
    ensures
        final(v)@.to_multiset() == old(v)@.to_multiset(),
{
    v.as_mut_slice().shuffle(&mut rand::thread_rng());
}

/// A prefix of a sequence never holds more copies of an element than
/// the whole.
proof fn lemma_take_multiset_le(s: Seq<Crate>, n: int)
    requires
        0 <= n <= s.len(),
    ensures
        forall|x: Crate| s.take(n).to_multiset().count(x) <= s.to_multiset().count(x),
{
    assert(s =~= s.take(n) + s.skip(n));
    lemma_multiset_commutative(s.take(n), s.skip(n));
}

/// Uniformly samples up to `SMALL_RANDOM_COUNT` packages from the
/// corpus without replacement, then sorts them for deterministic
/// persisted ordering. The sample itself is not reproducible across
/// invocations by design.
pub fn small_random(corpus: Vec<Crate>) -> (r: Vec<Crate>)
    ensures
        corpus@.len() >= SMALL_RANDOM_COUNT ==> r@.len() == SMALL_RANDOM_COUNT,
        corpus@.len() < SMALL_RANDOM_COUNT ==> r@.len() == corpus@.len(),
        crates_sorted(r@),
        forall|x: Crate| r@.to_multiset().count(x) <= corpus@.to_multiset().count(x),
        corpus@.no_duplicates() ==> r@.no_duplicates(),
{
    let ghost c0: Seq<Crate> = corpus@;
    let mut v = corpus;
    shuffle_crates(&mut v);
    let ghost shuffled: Seq<Crate> = v@;
    v.truncate(SMALL_RANDOM_COUNT);
    proof {
        if SMALL_RANDOM_COUNT <= shuffled.len() {
            assert(v@ =~= shuffled.take(SMALL_RANDOM_COUNT as int));
            lemma_take_multiset_le(shuffled, SMALL_RANDOM_COUNT as int);
        }
    }
    let ghost taken: Seq<Crate> = v@;
    let r = sort_crates(v);
    proof {
        assert(c0.to_multiset().len() == c0.len());
        assert(shuffled.to_multiset().len() == shuffled.len());
        assert(taken.to_multiset().len() == taken.len());
        assert(r@.to_multiset().len() == r@.len());
        if c0.no_duplicates() {
            c0.lemma_multiset_has_no_duplicates();
            assert forall|x: Crate| r@.to_multiset().contains(x) implies r@.to_multiset().count(x)
                == 1 by {
                assert(c0.to_multiset().contains(x));
            }
            r@.lemma_multiset_has_no_duplicates_conv();
        }
    }
    r
}

/// The first 100 entries of the popularity-ranked corpus; all of them
/// if the ranking is shorter.
pub fn top_100(ranked: Vec<Crate>) -> (r: Vec<Crate>)
    ensures
        ranked@.len() <= 100 ==> r@ == ranked@,
        ranked@.len() > 100 ==> r@ == ranked@.take(100),
{
    let mut r = ranked;
    r.truncate(100);
    r
}

/// Finds the first string of `v` whose view equals `name`'s.
fn find_string(v: &Vec<String>, name: &String) -> (r: Option<usize>)
    ensures
        match r {
            Some(j) => 0 <= j < v@.len() && v@[j as int]@ == name@,
            None => forall|q: int| 0 <= q < v@.len() ==> v@[q]@ != name@,
        },
{
    let mut i: usize = 0;
    while i < v.len()
        invariant
            0 <= i <= v@.len(),
            forall|q: int| 0 <= q < i ==> v@[q]@ != name@,
        decreases v@.len() - i,
    {
        if v[i].eq(name) {
            return Some(i);
        }
        i = i + 1;
    }
    None
}

/// Whether some entry of the curated repository list ends this
/// repository's address.
fn repo_matches(g: &GitHubRepo, repos: &Vec<String>) -> (r: bool)
    ensures
        r == matches_repo_list(str_views(repos@), *g),
{
    let url = g.url();
    let mut j: usize = 0;
    while j < repos.len()
        invariant
            0 <= j <= repos@.len(),
            url@ == g.url_view(),
            forall|q: int| 0 <= q < j ==> !str_views(repos@)[q].is_suffix_of(g.url_view()),
        decreases repos@.len() - j,
    {
        if str_ends_with(url.as_str(), repos[j].as_str()) {
            proof {
                assert(str_views(repos@)[j as int].is_suffix_of(g.url_view()));
            }
            return true;
        }
        j = j + 1;
    }
    false
}

/// Resolves the curated demo selection against the full corpus. Every
/// distinct curated package name and every curated repository suffix
/// must be matched; if the number of kept packages differs from that
/// expected count, the corpus and the curated list have diverged and
/// selection fails with a consistency error.
pub fn demo_list(corpus: &Vec<Crate>, demo_names: &Vec<String>, demo_repos: &Vec<String>) -> (r:
    Result<Vec<Crate>, ExError>)
    requires
        demo_names@.len() + demo_repos@.len() <= usize::MAX,
    ensures
        ({
            let sel = demo_filter(
                corpus@,
                dedup_views(str_views(demo_names@)),
                str_views(demo_repos@),
            );
            let expected = dedup_views(str_views(demo_names@)).len() + str_views(
                demo_repos@,
            ).len();
            match r {
                Ok(v) => v@ == sel && sel.len() == expected,
                Err(e) => sel.len() != expected && (e matches ExError::CorpusConsistency {
                    expected: x,
                    found: f,
                } && x as nat == expected && f as nat == sel.len()),
            }
        }),
{
    let ghost gnames: Seq<Seq<char>> = str_views(demo_names@);
    let ghost grepos: Seq<Seq<char>> = str_views(demo_repos@);

    // Collapse repeated curated names: each matches at most once.
    let mut remaining: Vec<String> = Vec::new();
    let mut i: usize = 0;
    proof {
        assert(gnames.take(0) =~= Seq::<Seq<char>>::empty());
    }
    while i < demo_names.len()
        invariant
            0 <= i <= demo_names@.len(),
            gnames == str_views(demo_names@),
            remaining@.len() <= i,
            str_views(remaining@) == dedup_views(gnames.take(i as int)),
        decreases demo_names@.len() - i,
    {
        proof {
            assert(gnames.take(i + 1).drop_last() =~= gnames.take(i as int));
            assert(gnames.take(i + 1).last() == demo_names@[i as int]@);
        }
        match find_string(&remaining, &demo_names[i]) {
            Some(j) => {
                proof {
                    assert(str_views(remaining@)[j as int] == gnames[i as int]);
                    assert(str_views(remaining@).contains(gnames[i as int]));
                }
            },
            None => {
                proof {
                    assert(!str_views(remaining@).contains(gnames[i as int]));
                }
                remaining.push(demo_names[i].clone());
            },
        }
        proof {
            assert(str_views(remaining@) =~= dedup_views(gnames.take(i + 1)));
        }
        i = i + 1;
    }
    proof {
        assert(gnames.take(gnames.len() as int) =~= gnames);
        lemma_dedup_views(gnames);
    }
    let ghost dn0: Seq<Seq<char>> = dedup_views(gnames);
    let expected: usize = remaining.len() + demo_repos.len();

    let mut out: Vec<Crate> = Vec::new();
    let mut k: usize = 0;
    proof {
        assert(corpus@.skip(0) =~= corpus@);
        assert(out@ + demo_filter(corpus@.skip(0), dn0, grepos) =~= demo_filter(
            corpus@,
            dn0,
            grepos,
        ));
    }
    while k < corpus.len()
        invariant
            0 <= k <= corpus@.len(),
            dn0 == dedup_views(str_views(demo_names@)),
            grepos == str_views(demo_repos@),
            str_views(remaining@).no_duplicates(),
            demo_filter(corpus@, dn0, grepos) == out@ + demo_filter(
                corpus@.skip(k as int),
                str_views(remaining@),
                grepos,
            ),
        decreases corpus@.len() - k,
    {
        let ghost rem0: Seq<Seq<char>> = str_views(remaining@);
        proof {
            assert(corpus@.skip(k as int)[0] == corpus@[k as int]);
            assert(corpus@.skip(k as int).drop_first() =~= corpus@.skip(k + 1));
        }
        match &corpus[k] {
            Crate::Registry(rc) => {
                match find_string(&remaining, &rc.name) {
                    Some(j) => {
                        proof {
                            assert(rem0.contains(rem0[j as int]));
                            assert(rem0[j as int] == rc.name@);
                            let ci = rem0.index_of(rc.name@);
                            assert(rem0[ci] == rc.name@);
                            assert(ci == j as int);
                        }
                        let _ = remaining.remove(j);
                        out.push(corpus[k].duplicate());
                        proof {
                            assert(str_views(remaining@) =~= rem0.remove(j as int));
                            assert forall|a: int, b: int|
                                0 <= a < str_views(remaining@).len() && 0 <= b < str_views(
                                    remaining@,
                                ).len() && a != b implies str_views(remaining@)[a] != str_views(
                                remaining@,
                            )[b] by {
                                assert(rem0.remove(j as int)[a] == if a < j as int {
                                    rem0[a]
                                } else {
                                    rem0[a + 1]
                                });
                                assert(rem0.remove(j as int)[b] == if b < j as int {
                                    rem0[b]
                                } else {
                                    rem0[b + 1]
                                });
                            }
                            assert(out@ + demo_filter(corpus@.skip(k + 1), str_views(remaining@),
                                grepos) =~= demo_filter(corpus@, dn0, grepos));
                        }
                    },
                    None => {
                        proof {
                            assert(!rem0.contains(rc.name@));
                        }
                    },
                }
            },
            Crate::GitHub(g) => {
                if repo_matches(g, demo_repos) {
                    out.push(corpus[k].duplicate());
                    proof {
                        assert(out@ + demo_filter(corpus@.skip(k + 1), str_views(remaining@),
                            grepos) =~= demo_filter(corpus@, dn0, grepos));
                    }
                }
            },
        }
        k = k + 1;
    }
    proof {
        assert(corpus@.skip(corpus@.len() as int).len() == 0);
        assert(demo_filter(corpus@, dn0, grepos) =~= out@);
    }
    if out.len() == expected {
        Ok(out)
    } else {
        let found = out.len();
        Err(ExError::CorpusConsistency { expected, found })
    }
}

/// What each selection mode promises of its result, relative to the
/// full corpus, the popularity ranking, and the curated demo lists.
pub open spec fn selection_post(
    select: ExCrateSelect,
    full: Seq<Crate>,
    ranked: Seq<Crate>,
    demo_names: Seq<String>,
    demo_repos: Seq<String>,
    out: Seq<Crate>,
) -> bool {
    match select {
        ExCrateSelect::Full => out == full,
        ExCrateSelect::Top100 => out == if ranked.len() <= 100 {
            ranked
        } else {
            ranked.take(100)
        },
        ExCrateSelect::Demo => {
            let sel = demo_filter(full, dedup_views(str_views(demo_names)), str_views(demo_repos));
            out == sel && sel.len() == dedup_views(str_views(demo_names)).len() + demo_repos.len()
        },
        ExCrateSelect::SmallRandom => {
            &&& full.len() >= SMALL_RANDOM_COUNT ==> out.len() == SMALL_RANDOM_COUNT
            &&& full.len() < SMALL_RANDOM_COUNT ==> out.len() == full.len()
            &&& crates_sorted(out)
            &&& forall|x: Crate| out.to_multiset().count(x) <= full.to_multiset().count(x)
            &&& full.no_duplicates() ==> out.no_duplicates()
        },
    }
}

/// Resolves a selection mode into a concrete package list, from the
/// full corpus, the popularity ranking, and the curated demo lists.
/// Only the demo selection can fail, and only with a consistency
/// error.
pub fn get_crates(
    select: ExCrateSelect,
    full: &Vec<Crate>,
    ranked: &Vec<Crate>,
    demo_names: &Vec<String>,
    demo_repos: &Vec<String>,
) -> (r: Result<Vec<Crate>, ExError>)
    requires
        demo_names@.len() + demo_repos@.len() <= usize::MAX,
    ensures
        match r {
            Ok(v) => selection_post(select, full@, ranked@, demo_names@, demo_repos@, v@),
            Err(e) => select == ExCrateSelect::Demo && e matches ExError::CorpusConsistency {
                expected: _,
                found: _,
            },
        },
        r is Err <==> (select == ExCrateSelect::Demo && demo_filter(
            full@,
            dedup_views(str_views(demo_names@)),
            str_views(demo_repos@),
        ).len() != dedup_views(str_views(demo_names@)).len() + demo_repos@.len()),
{
    match select {
        ExCrateSelect::Full => Ok(duplicate_crates(full)),
        ExCrateSelect::Demo => demo_list(full, demo_names, demo_repos),
        ExCrateSelect::SmallRandom => Ok(small_random(duplicate_crates(full))),
        ExCrateSelect::Top100 => Ok(top_100(duplicate_crates(ranked))),
    }
}

} // verus!
