//! Running without a screen: what is asked for, and what comes of the fetches.
use vstd::prelude::*;
use crate::checks::CheckStatus;
use crate::data::ClusterSnapshot;
use crate::kube_client::ClusterClient;
use crate::list::{lemma_positions_step, lemma_take_all, positions};
use crate::text::{decimal, decimal_usize, same};

verus! {

broadcast use lemma_take_all;

/// The test whether a cluster is the one asked for, if one is.
pub open spec fn is_target(wanted: Option<Seq<char>>) -> spec_fn(ClusterClient) -> bool {
    |c: ClusterClient| wanted is None || c.name@ == wanted->0
}

/// A name that may be missing, as a value.
pub open spec fn name_view(name: Option<&str>) -> Option<Seq<char>> {
    match name {
        Some(s) => Some(s@),
        None => None,
    }
}

/// The positions of the clusters that are asked for: the one of a name, or all.
pub fn target_clusters(clusters: &Vec<ClusterClient>, wanted: Option<&str>) -> (r: Vec<usize>)
    ensures
        r@.map_values(|i: usize| i as int) == positions(
            clusters@,
            is_target(name_view(wanted)),
        ),
{
    let ghost keep = is_target(name_view(wanted));
    let mut out: Vec<usize> = Vec::new();
    let mut i: usize = 0;
    proof {
        assert(out@.map_values(|i: usize| i as int) =~= positions(clusters@.take(0), keep));
    }
    while i < clusters.len()
        invariant
            i <= clusters@.len(),
            keep == is_target(name_view(wanted)),
            out@.map_values(|i: usize| i as int) == positions(clusters@.take(i as int), keep),
        decreases clusters@.len() - i,
    {
        let ghost before = out@;
        proof {
            lemma_positions_step(clusters@, i as int, keep);
        }
        let is_wanted = match wanted {
            Some(name) => same(clusters[i].name.as_str(), name),
            None => true,
        };
        if is_wanted {
            out.push(i);
            proof {
                assert(out@.map_values(|i: usize| i as int) =~= before.map_values(
                    |i: usize| i as int,
                ).push(i as int));
            }
        }
        i += 1;
    }
    out
}

/// What is said where no cluster is the one asked for.
pub fn cluster_not_found(wanted: Option<&str>) -> (r: String)
    ensures
        r@ == "Cluster '"@ + (match wanted {
            Some(name) => name@,
            None => ""@,
        }) + "' not found"@,
{
    let mut out = "Cluster '".to_owned();
    match wanted {
        Some(name) => {
            out.append(name);
        },
        None => {
            out.append("");
        },
    }
    out.append("' not found");
    out
}

/// What is said where there is no cluster at all.
pub fn no_clusters(dir: &str) -> (r: String)
    ensures
        r@ == "No kubeconfig files found in "@ + dir@ + ". Run 'scalex cluster init' first."@,
{
    let mut out = "No kubeconfig files found in ".to_owned();
    out.append(dir);
    out.append(". Run 'scalex cluster init' first.");
    out
}

/// What is asked for.
#[derive(Debug)]
pub enum Request {
    /// The machines, for which nothing is fetched.
    Infra,
    /// The health checks.
    Checks,
    /// One kind of resource.
    Resource(String),
    /// Everything.
    Everything,
}

/// What is asked for by the name of a resource. Without one, the checks are
/// asked for where the environment says so, else everything.
pub fn request_of(resource: Option<&str>, checks_in_environment: bool) -> (r: Request)
    ensures
        match resource {
            Some(name) => if name@ == "infra"@ {
                r is Infra
            } else if name@ == "checks"@ {
                r is Checks
            } else {
                r matches Request::Resource(s) && s@ == name@
            },
            None => if checks_in_environment {
                r is Checks
            } else {
                r is Everything
            },
        },
{
    match resource {
        Some(name) => if same(name, "infra") {
            Request::Infra
        } else if same(name, "checks") {
            Request::Checks
        } else {
            Request::Resource(name.to_owned())
        },
        None => if checks_in_environment {
            Request::Checks
        } else {
            Request::Everything
        },
    }
}

/// What came of fetching a cluster.
#[derive(Debug)]
pub enum FetchOutcome {
    Fetched(ClusterSnapshot),
    Failed(String),
    /// The task did not come to its end.
    Panicked(String),
}

/// A cluster that could not be fetched, and why.
#[derive(Debug)]
pub struct FetchError {
    pub cluster: String,
    pub error: String,
}

/// What was fetched, and what could not be.
#[derive(Debug)]
pub struct Gathered {
    pub snapshots: Vec<ClusterSnapshot>,
    pub errors: Vec<FetchError>,
}

/// The snapshots among the first outcomes.
pub open spec fn fetched(outcomes: Seq<(String, FetchOutcome)>, n: int) -> Seq<ClusterSnapshot>
    decreases n,
{
    if n <= 0 {
        Seq::empty()
    } else {
        match outcomes[n - 1].1 {
            FetchOutcome::Fetched(s) => fetched(outcomes, n - 1).push(s),
            _ => fetched(outcomes, n - 1),
        }
    }
}

/// The clusters among the first outcomes that could not be fetched, and why.
pub open spec fn failed(outcomes: Seq<(String, FetchOutcome)>, n: int) -> Seq<
    (Seq<char>, Seq<char>),
>
    decreases n,
{
    if n <= 0 {
        Seq::empty()
    } else {
        match outcomes[n - 1].1 {
            FetchOutcome::Fetched(_) => failed(outcomes, n - 1),
            FetchOutcome::Failed(e) => failed(outcomes, n - 1).push((outcomes[n - 1].0@, e@)),
            FetchOutcome::Panicked(e) => failed(outcomes, n - 1).push(
                (outcomes[n - 1].0@, "task panic: "@ + e@),
            ),
        }
    }
}

/// Errors as values.
pub open spec fn errors_model(s: Seq<FetchError>) -> Seq<(Seq<char>, Seq<char>)> {
    s.map_values(|e: FetchError| (e.cluster@, e.error@))
}

/// One error more.
proof fn lemma_errors_push(s: Seq<FetchError>, e: FetchError)
    ensures
        errors_model(s.push(e)) == errors_model(s).push((e.cluster@, e.error@)),
{
    assert(errors_model(s.push(e)) =~= errors_model(s).push((e.cluster@, e.error@)));
}

/// Parts what was fetched from what could not be, each in the order of the
/// clusters.
pub fn gather(outcomes: Vec<(String, FetchOutcome)>) -> (r: Gathered)
    ensures
        r.snapshots@ == fetched(outcomes@, outcomes@.len() as int),
        errors_model(r.errors@) == failed(outcomes@, outcomes@.len() as int),
        r.snapshots@.len() + r.errors@.len() == outcomes@.len(),
{
    let mut snapshots: Vec<ClusterSnapshot> = Vec::new();
    let mut errors: Vec<FetchError> = Vec::new();
    let ghost all = outcomes@;
    let ghost n = all.len() as int;
    proof {
        assert(errors_model(errors@) =~= Seq::empty());
    }
    for outcome in it: outcomes
        invariant
            it.seq() == all,
            snapshots@ == fetched(all, it.index() as int),
            errors_model(errors@) == failed(all, it.index() as int),
            snapshots@.len() + errors@.len() == it.index(),
    {
        let (cluster, result) = outcome;
        match result {
            FetchOutcome::Fetched(s) => {
                snapshots.push(s);
            },
            FetchOutcome::Failed(error) => {
                let e = FetchError { cluster, error };
                proof {
                    lemma_errors_push(errors@, e);
                }
                errors.push(e);
            },
            FetchOutcome::Panicked(cause) => {
                let mut error = "task panic: ".to_owned();
                error.append(cause.as_str());
                let e = FetchError { cluster, error };
                proof {
                    lemma_errors_push(errors@, e);
                }
                errors.push(e);
            },
        }
    }
    Gathered { snapshots, errors }
}

/// Tests whether nothing could be fetched although something should have been.
pub fn all_failed(gathered: &Gathered) -> (r: bool)
    ensures
        r == (gathered.errors@.len() > 0 && gathered.snapshots@.len() == 0),
{
    gathered.errors.len() > 0 && gathered.snapshots.len() == 0
}

/// What is said where some clusters could not be fetched; `details` lists them.
pub fn failure_warning(failures: usize, targets: usize, details: &str) -> (r: String)
    ensures
        r@ == "warning: "@ + decimal(failures as nat) + "/"@ + decimal(targets as nat)
            + " cluster(s) failed to fetch data: "@ + details@,
{
    let mut out = "warning: ".to_owned();
    out.append(decimal_usize(failures).as_str());
    out.append("/");
    out.append(decimal_usize(targets).as_str());
    out.append(" cluster(s) failed to fetch data: ");
    out.append(details);
    out
}

/// The exit code of the checks: one exactly if they fail as a whole.
pub fn exit_code(overall: CheckStatus) -> (r: i32)
    ensures
        r == if overall == CheckStatus::Fail {
            1i32
        } else {
            0i32
        },
{
    match overall {
        CheckStatus::Fail => 1,
        _ => 0,
    }
}

/// Every cluster is either among the snapshots or among the failures, and there
/// is a snapshot exactly if some cluster could be fetched: one is enough to go on.
pub proof fn law_one_snapshot_is_enough(outcomes: Seq<(String, FetchOutcome)>, n: int)
    requires
        0 <= n <= outcomes.len(),
    ensures
        fetched(outcomes, n).len() + failed(outcomes, n).len() == n,
        fetched(outcomes, n).len() > 0 <==> exists|i: int|
            0 <= i < n && (#[trigger] outcomes[i]).1 is Fetched,
    decreases n,
{
    if n > 0 {
        law_one_snapshot_is_enough(outcomes, n - 1);
        if outcomes[n - 1].1 is Fetched {
            assert(outcomes[n - 1].1 is Fetched);
        }
    }
}

} // verus!
