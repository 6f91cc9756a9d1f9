use scalex_dash::filter::{filter_and_rank, find_match_ranges};
#[test]
fn filter_finds_matches() {
    let rows = vec![
        vec!["nginx-pod".into(), "default".into()],
        vec!["redis-pod".into(), "kube-system".into()],
    ];
    let results = filter_and_rank(&rows, "nginx");
    assert_eq!(results.len(), 1);
    assert_eq!(results[0].0, 0);
}

#[test]
fn filter_empty_query_returns_empty() {
    let rows = vec![vec!["nginx".into()]];
    // Empty query: no filtering (implementation returns empty for empty queries)
    let results = filter_and_rank(&rows, "");
    assert!(results.is_empty());
}

#[test]
fn filter_no_matches() {
    let rows = vec![
        vec!["nginx-pod".into()],
        vec!["redis-pod".into()],
    ];
    let results = filter_and_rank(&rows, "xyz-nonexistent");
    assert!(results.is_empty());
}

#[test]
fn filter_ranks_exact_higher() {
    let rows = vec![
        vec!["my-nginx-pod".into()],  // substring match
        vec!["nginx".into()],          // exact match (higher score)
    ];
    let results = filter_and_rank(&rows, "nginx");
    assert_eq!(results.len(), 2);
    // Exact match (index 1) should rank first
    assert_eq!(results[0].0, 1);
    assert_eq!(results[1].0, 0);
}

#[test]
fn filter_ranks_prefix_higher_than_substring() {
    let rows = vec![
        vec!["my-nginx-pod".into()],   // substring match
        vec!["nginx-deploy".into()],    // prefix match (higher score)
    ];
    let results = filter_and_rank(&rows, "nginx");
    assert_eq!(results.len(), 2);
    // Prefix match should rank first
    assert_eq!(results[0].0, 1);
}

#[test]
fn filter_searches_all_columns() {
    let rows = vec![
        vec!["redis-pod".into(), "nginx-namespace".into()],
    ];
    let results = filter_and_rank(&rows, "nginx");
    assert_eq!(results.len(), 1);
    assert_eq!(results[0].0, 0);
}

#[test]
fn filter_case_insensitive() {
    let rows = vec![vec!["Nginx-Pod".into()]];
    let results = filter_and_rank(&rows, "nginx");
    assert_eq!(results.len(), 1);
}

#[test]
fn find_ranges_basic() {
    let ranges = find_match_ranges("nginx-deployment", "nginx");
    assert_eq!(ranges, vec![(0, 5)]);
}

#[test]
fn find_ranges_empty_query() {
    let ranges = find_match_ranges("hello", "");
    assert!(ranges.is_empty());
}

#[test]
fn find_ranges_no_match() {
    let ranges = find_match_ranges("hello", "xyz");
    assert!(ranges.is_empty());
}

#[test]
fn find_ranges_middle_match() {
    let ranges = find_match_ranges("my-nginx-pod", "nginx");
    assert_eq!(ranges, vec![(3, 8)]);
}

#[test]
fn find_ranges_case_insensitive() {
    let ranges = find_match_ranges("ConfigMap", "config");
    assert_eq!(ranges, vec![(0, 6)]);
}

#[test]
fn find_ranges_multiple_occurrences() {
    let ranges = find_match_ranges("pod-pod-pod", "pod");
    assert_eq!(ranges, vec![(0, 3), (4, 7), (8, 11)]);
}

#[test]
fn ranges_count_bytes() {
    assert_eq!(find_match_ranges("größe-Größe", "größe"), vec![(0, 7), (8, 15)]);
    assert_eq!(find_match_ranges("→x→X", "x"), vec![(3, 4), (7, 8)]);
    assert_eq!(find_match_ranges("aaaa", "aa"), vec![(0, 2), (2, 4)]);
}

#[test]
fn scores_are_exact() {
    let rows = vec![
        vec!["a-web".to_string()],
        vec!["web".to_string()],
        vec!["web-1".to_string()],
        vec!["b-web".to_string(), "WEB".to_string()],
    ];
    let results: Vec<(usize, i32, bool)> = filter_and_rank(&rows, "Web")
        .iter()
        .map(|(i, s)| (*i, s.score, s.is_exact))
        .collect();
    assert_eq!(
        results,
        vec![(1, 100, true), (3, 100, true), (2, 80, true), (0, 50, false)]
    );
}

#[test]
fn every_occurrence_is_highlighted_in_part() {
    // The second of the overlapping occurrences begins within the first.
    assert_eq!(find_match_ranges("banana", "ana"), vec![(1, 4)]);
    assert_eq!(find_match_ranges("anaxana", "ana"), vec![(0, 3), (4, 7)]);
}
