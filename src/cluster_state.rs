use crate::scaler::{ClusterFetchError, ClusterState};
use vstd::prelude::*;
use vstd::string::*;

verus! {

/// Label whose value names the component that a deployment belongs to.
pub const COMPONENT_LABEL: &'static str = "app.kubernetes.io/component";

/// Label whose value names the application instance that a deployment belongs to.
pub const INSTANCE_LABEL: &'static str = "app.kubernetes.io/instance";

/// Components whose name starts with this are background workers.
pub const WORKER_COMPONENT_PREFIX: &'static str = "background-worker";

/// What the library reads of one deployment object of the cluster.
#[derive(Debug)]
pub struct WorkloadSummary {
    pub name: Option<String>,
    /// The value of the component label, if the object has one.
    pub component: Option<String>,
    /// The replica count of the object's spec, if it states one.
    pub replicas: Option<i32>,
}

/// Whether `s` begins with `prefix`.
pub fn has_prefix(s: &str, prefix: &str) -> (r: bool)
    ensures
        r == prefix@.is_prefix_of(s@),
{
    let n = prefix.unicode_len();
    if n > s.unicode_len() {
        return false;
    }
    let mut i: usize = 0;
    while i < n
        invariant
            n == prefix@.len(),
            n <= s@.len(),
            i <= n,
            forall|m: int| 0 <= m < i ==> prefix@[m] == s@[m],
        decreases n - i,
    {
        if prefix.get_char(i) != s.get_char(i) {
            assert(prefix@[i as int] != s@.subrange(0, n as int)[i as int]);
            return false;
        }
        i = i + 1;
    }
    assert(prefix@ =~= s@.subrange(0, n as int));
    true
}

pub open spec fn is_worker(w: WorkloadSummary) -> bool {
    w.component matches Some(c) && WORKER_COMPONENT_PREFIX@.is_prefix_of(c@)
}

/// A worker deployment that states everything the snapshot needs.
pub open spec fn is_complete(w: WorkloadSummary) -> bool {
    &&& w.name is Some
    &&& w.replicas matches Some(n) && n >= 0
}

/// The snapshot entry of a worker deployment, or none for another one.
pub open spec fn worker_entry(w: WorkloadSummary) -> Option<(String, usize)> {
    if is_worker(w) {
        Some((w.name->0, w.replicas->0 as usize))
    } else {
        None
    }
}

/// The error that an incomplete worker deployment is reported with.
pub open spec fn incomplete_error(w: WorkloadSummary) -> ClusterFetchError {
    match w.name {
        None => ClusterFetchError::MissingName,
        Some(name) => match w.replicas {
            None => ClusterFetchError::MissingReplicaCount { deployment: name },
            Some(n) => ClusterFetchError::NegativeReplicaCount { deployment: name, replicas: n },
        },
    }
}

pub open spec fn all_workers_complete(ws: Seq<WorkloadSummary>) -> bool {
    forall|i: int| 0 <= i < ws.len() && is_worker(#[trigger] ws[i]) ==> is_complete(ws[i])
}

pub fn is_background_worker(w: &WorkloadSummary) -> (r: bool)
    ensures
        r == is_worker(*w),
{
    match &w.component {
        Some(c) => has_prefix(c.as_str(), WORKER_COMPONENT_PREFIX),
        None => false,
    }
}

/// The cluster snapshot made of the worker deployments among `workloads`, in
/// their order. Fails on the first worker deployment that lacks a name or a
/// valid replica count.
pub fn cluster_state_from(workloads: &Vec<WorkloadSummary>) -> (r: Result<ClusterState, ClusterFetchError>)
    ensures
        r is Ok <==> all_workers_complete(workloads@),
        r matches Ok(s) ==> s.replicas@ == workloads@.filter_map(|w: WorkloadSummary| worker_entry(w)),
        r matches Err(e) ==> exists|b: int|
            0 <= b < workloads@.len() && is_worker(#[trigger] workloads@[b]) && !is_complete(workloads@[b])
                && all_workers_complete(workloads@.take(b)) && e == incomplete_error(workloads@[b]),
{
    let ghost f = |w: WorkloadSummary| worker_entry(w);
    let mut replicas: Vec<(String, usize)> = Vec::new();
    let mut i: usize = 0;
    while i < workloads.len()
        invariant
            i <= workloads@.len(),
            all_workers_complete(workloads@.take(i as int)),
            f == (|w: WorkloadSummary| worker_entry(w)),
            replicas@ == workloads@.take(i as int).filter_map(f),
        decreases workloads@.len() - i,
    {
        let w = &workloads[i];
        proof {
            workloads@.lemma_filter_map_take_succ(f, i as int);
        }
        if is_background_worker(w) {
            let name = match &w.name {
                Some(name) => name,
                None => {
                    return Err(ClusterFetchError::MissingName);
                },
            };
            let count: i32 = match w.replicas {
                Some(n) => n,
                None => {
                    return Err(ClusterFetchError::MissingReplicaCount { deployment: name.clone() });
                },
            };
            if count < 0 {
                return Err(
                    ClusterFetchError::NegativeReplicaCount { deployment: name.clone(), replicas: count },
                );
            }
            let ghost before = replicas@;
            let entry = (name.clone(), count as usize);
            replicas.push(entry);
            assert(f(*w) == Some(entry));
            assert(replicas@ =~= before + seq![entry]);
        } else {
            assert(f(*w) is None);
        }
        proof {
            assert forall|m: int|
                0 <= m < i + 1 && is_worker(#[trigger] workloads@.take(i + 1)[m]) implies is_complete(
                workloads@.take(i + 1)[m],
            ) by {
                if m < i {
                    assert(workloads@.take(i + 1)[m] == workloads@.take(i as int)[m]);
                }
            }
        }
        i = i + 1;
    }
    assert(workloads@.take(i as int) =~= workloads@);
    Ok(ClusterState { replicas })
}

/// The label selector that picks the deployments of application `app`.
pub fn instance_selector(app: &str) -> (r: String)
    ensures
        r@ == INSTANCE_LABEL@ + "="@ + app@,
{
    let mut selector = String::from_str(INSTANCE_LABEL);
    selector.append("=");
    selector.append(app);
    selector
}

} // verus!
