use wordcount::book::{BookItem, Chapter, WordcountConfig};
use wordcount::report::aggregate;
use wordcount::words::WordPolicy;

fn chapter(name: &str, content: &str, sub_items: Vec<BookItem>) -> BookItem {
    BookItem::Chapter(Chapter {
        name: name.to_string(),
        content: content.to_string(),
        sub_items,
    })
}

fn no_ignores() -> WordcountConfig {
    WordcountConfig { ignores: vec![] }
}

#[test]
fn test_aggregate_empty_forest() {
    let forest: Vec<BookItem> = vec![];
    let report = aggregate(&forest, &no_ignores(), WordPolicy::LetterFiltered);
    assert_eq!(report.entries.len(), 0);
    assert_eq!(report.total, 0);
}

#[test]
fn test_aggregate_nested_counts_and_total() {
    let forest = vec![
        chapter("Intro", "Hello world", vec![]),
        BookItem::Separator,
        chapter(
            "Guide",
            "one two-three four",
            vec![chapter("Deep", "alpha beta", vec![])],
        ),
    ];
    let report = aggregate(&forest, &no_ignores(), WordPolicy::LetterFiltered);
    let got: Vec<(String, usize)> = report
        .entries
        .iter()
        .map(|e| (e.name.clone(), e.count))
        .collect();
    assert_eq!(
        got,
        vec![
            ("Intro".to_string(), 2),
            ("Guide".to_string(), 3),
            ("Deep".to_string(), 2),
        ]
    );
    assert_eq!(report.total, 7);
}

#[test]
fn test_aggregate_exclusion_skips_whole_subtree() {
    let forest = vec![
        chapter("Keep", "kept words here", vec![]),
        chapter(
            "Skip me",
            "xxx yyy zzz",
            vec![chapter("Child", "aaa", vec![])],
        ),
    ];
    let cfg = WordcountConfig {
        ignores: vec!["Skip me".to_string()],
    };
    let report = aggregate(&forest, &cfg, WordPolicy::LetterFiltered);
    assert_eq!(report.entries.len(), 1);
    assert_eq!(report.entries[0].name, "Keep");
    assert_eq!(report.entries[0].count, 3);
    assert_eq!(report.total, 3);
    for e in &report.entries {
        assert!(e.name != "Skip me");
        assert!(e.name != "Child");
    }
}

#[test]
fn test_aggregate_duplicate_and_empty_names() {
    let forest = vec![chapter("", "a", vec![]), chapter("", "b c", vec![])];
    let report = aggregate(&forest, &no_ignores(), WordPolicy::LetterFiltered);
    assert_eq!(report.entries.len(), 2);
    assert_eq!(report.entries[0].name, "");
    assert_eq!(report.entries[0].count, 1);
    assert_eq!(report.entries[1].name, "");
    assert_eq!(report.entries[1].count, 2);
    assert_eq!(report.total, 3);
}

#[test]
fn test_aggregate_total_is_sum_of_entries() {
    let forest = vec![
        chapter("A", "one two", vec![chapter("B", "three four five !", vec![])]),
        chapter("C", "", vec![]),
    ];
    let report = aggregate(&forest, &no_ignores(), WordPolicy::Whitespace);
    let sum: u128 = report.entries.iter().map(|e| e.count as u128).sum();
    assert_eq!(report.total, sum);
    assert_eq!(report.total, 6);
}

#[test]
fn test_aggregate_idempotent() {
    let forest = vec![
        chapter("One", "some words", vec![chapter("Two", "more words !", vec![])]),
        BookItem::Separator,
        chapter("Three", "", vec![]),
    ];
    let cfg = WordcountConfig {
        ignores: vec!["Two".to_string()],
    };
    let first = aggregate(&forest, &cfg, WordPolicy::LetterFiltered);
    let second = aggregate(&forest, &cfg, WordPolicy::LetterFiltered);
    assert_eq!(first.entries.len(), second.entries.len());
    for (a, b) in first.entries.iter().zip(second.entries.iter()) {
        assert_eq!(a.name, b.name);
        assert_eq!(a.count, b.count);
    }
    assert_eq!(first.total, second.total);
}

#[test]
fn test_resolve_config_missing_defaults_to_empty() {
    let cfg = wordcount::book::resolve_config(None);
    assert_eq!(cfg.ignores.len(), 0);
}

#[test]
fn test_resolve_config_present_is_kept() {
    let cfg = wordcount::book::resolve_config(Some(WordcountConfig {
        ignores: vec!["A".to_string(), "B".to_string()],
    }));
    assert_eq!(cfg.ignores, vec!["A".to_string(), "B".to_string()]);
}

#[test]
fn test_wordcount_config_default_excludes_nothing() {
    let cfg = WordcountConfig::default();
    assert_eq!(cfg.ignores.len(), 0);
}
