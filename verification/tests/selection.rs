use exmatrix::types::{Crate, ExCrateSelect, GitHubRepo, RegistryCrate};
use exmatrix::select::{demo_list, get_crates, small_random, top_100};
use exmatrix::order::{crate_le, sort_crates};
use exmatrix::errors::ExError;

fn reg(name: &str, version: &str) -> Crate {
    Crate::Registry(RegistryCrate {
        name: name.to_string(),
        version: version.to_string(),
    })
}

fn gh(org: &str, name: &str) -> Crate {
    Crate::GitHub(GitHubRepo {
        org: org.to_string(),
        name: name.to_string(),
    })
}

#[test]
fn demo_keeps_exactly_the_curated_packages() {
    let corpus = vec![reg("a", "1.0"), reg("b", "1.0"), reg("c", "1.0")];
    let names = vec!["a".to_string(), "c".to_string()];
    let repos: Vec<String> = vec![];
    let selected = demo_list(&corpus, &names, &repos).unwrap();
    assert_eq!(selected, vec![reg("a", "1.0"), reg("c", "1.0")]);
}

#[test]
fn demo_with_unknown_name_fails_consistency() {
    let corpus = vec![reg("a", "1.0"), reg("b", "1.0"), reg("c", "1.0")];
    let names = vec!["a".to_string(), "zzz".to_string()];
    let repos: Vec<String> = vec![];
    let r = demo_list(&corpus, &names, &repos);
    assert!(matches!(
        r,
        Err(ExError::CorpusConsistency {
            expected: 2,
            found: 1
        })
    ));
}

#[test]
fn demo_matches_repo_suffixes_against_urls() {
    let corpus = vec![reg("a", "1.0"), gh("rust-lang", "cargo"), gh("other", "thing")];
    let names = vec!["a".to_string()];
    let repos = vec!["rust-lang/cargo".to_string()];
    let selected = demo_list(&corpus, &names, &repos).unwrap();
    assert_eq!(selected, vec![reg("a", "1.0"), gh("rust-lang", "cargo")]);
}

#[test]
fn demo_curated_name_matches_at_most_once() {
    // Two corpus entries share a name; one curated name must match
    // exactly once, so the count check fails on the duplicate.
    let corpus = vec![reg("a", "1.0"), reg("a", "2.0")];
    let names = vec!["a".to_string()];
    let repos: Vec<String> = vec![];
    let selected = demo_list(&corpus, &names, &repos).unwrap();
    assert_eq!(selected, vec![reg("a", "1.0")]);
}

#[test]
fn small_random_on_small_corpus_returns_all_sorted() {
    let corpus = vec![reg("c", "1.0"), reg("a", "1.0"), reg("b", "1.0")];
    let picked = small_random(corpus);
    assert_eq!(
        picked,
        vec![reg("a", "1.0"), reg("b", "1.0"), reg("c", "1.0")]
    );
}

#[test]
fn small_random_returns_twenty_distinct_sorted() {
    let mut corpus = Vec::new();
    for i in 0..50 {
        corpus.push(reg(&format!("crate{:02}", i), "1.0"));
    }
    let picked = small_random(corpus.clone());
    assert_eq!(picked.len(), 20);
    for w in picked.windows(2) {
        assert!(crate_le(&w[0], &w[1]) && w[0] != w[1], "sorted and distinct");
    }
    for c in &picked {
        assert!(corpus.contains(c));
    }
}

#[test]
fn small_random_on_empty_corpus_is_empty() {
    let picked = small_random(Vec::new());
    assert!(picked.is_empty());
}

#[test]
fn top_100_truncates_ranked_list() {
    let mut ranked = Vec::new();
    for i in 0..150 {
        ranked.push(reg(&format!("crate{:03}", i), "1.0"));
    }
    let picked = top_100(ranked.clone());
    assert_eq!(picked.len(), 100);
    assert_eq!(picked[..], ranked[..100]);

    let short = vec![reg("a", "1.0"), reg("b", "1.0")];
    assert_eq!(top_100(short.clone()), short);
}

#[test]
fn get_crates_full_returns_whole_corpus() {
    let corpus = vec![reg("b", "1.0"), reg("a", "1.0")];
    let ranked = vec![reg("a", "1.0")];
    let names: Vec<String> = vec![];
    let repos: Vec<String> = vec![];
    let got = get_crates(ExCrateSelect::Full, &corpus, &ranked, &names, &repos).unwrap();
    assert_eq!(got, corpus);
}

#[test]
fn sort_orders_registry_before_repos_and_by_name() {
    let v = vec![
        gh("org", "zz"),
        reg("b", "2.0"),
        reg("b", "1.0"),
        gh("org", "aa"),
        reg("a", "9.9"),
    ];
    let sorted = sort_crates(v);
    assert_eq!(
        sorted,
        vec![
            reg("a", "9.9"),
            reg("b", "1.0"),
            reg("b", "2.0"),
            gh("org", "aa"),
            gh("org", "zz"),
        ]
    );
}
