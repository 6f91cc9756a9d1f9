use scalex_dash::checks::CheckStatus;
use scalex_dash::headless::{
    all_failed, cluster_not_found, exit_code, failure_warning, gather, no_clusters, request_of,
    target_clusters, FetchOutcome, Request,
};
use scalex_dash::kube_client::ClusterClient;
use scalex_dash::snapshot::unknown_snapshot;

fn client(name: &str) -> ClusterClient {
    ClusterClient {
        name: name.into(),
        kubeconfig_path: String::new(),
        tunnel_pid: None,
        server_version: None,
        endpoint: None,
    }
}

#[test]
fn targets_are_chosen_by_name() {
    let clusters = vec![client("a"), client("b")];
    assert_eq!(target_clusters(&clusters, None), vec![0, 1]);
    assert_eq!(target_clusters(&clusters, Some("b")), vec![1]);
    assert!(target_clusters(&clusters, Some("c")).is_empty());
    assert_eq!(cluster_not_found(Some("c")), "Cluster 'c' not found");
    assert_eq!(cluster_not_found(None), "Cluster '' not found");
    assert_eq!(
        no_clusters("/d"),
        "No kubeconfig files found in /d. Run 'scalex cluster init' first."
    );
}

#[test]
fn requests_follow_the_arguments() {
    assert!(matches!(request_of(Some("infra"), true), Request::Infra));
    assert!(matches!(request_of(Some("checks"), false), Request::Checks));
    assert!(matches!(request_of(None, true), Request::Checks));
    assert!(matches!(request_of(None, false), Request::Everything));
    assert!(matches!(request_of(Some("pods"), true), Request::Resource(s) if s == "pods"));
}

#[test]
fn failures_are_told_apart() {
    let gathered = gather(vec![
        ("a".to_string(), FetchOutcome::Fetched(unknown_snapshot("a"))),
        ("b".to_string(), FetchOutcome::Failed("refused".to_string())),
        ("c".to_string(), FetchOutcome::Panicked("oops".to_string())),
    ]);
    assert_eq!(gathered.snapshots.len(), 1);
    assert_eq!(gathered.errors[0].cluster, "b");
    assert_eq!(gathered.errors[0].error, "refused");
    assert_eq!(gathered.errors[1].error, "task panic: oops");
    assert!(!all_failed(&gathered));
    assert_eq!(
        failure_warning(2, 3, "[]"),
        "warning: 2/3 cluster(s) failed to fetch data: []"
    );
}

#[test]
fn a_run_fails_if_nothing_was_fetched() {
    let gathered = gather(vec![("b".to_string(), FetchOutcome::Failed("x".to_string()))]);
    assert!(all_failed(&gathered));
    assert!(!all_failed(&gather(vec![])));
    assert_eq!(exit_code(CheckStatus::Fail), 1);
    assert_eq!(exit_code(CheckStatus::KnownDegraded), 0);
}
