use vstd::prelude::*;

verus! {

/// Round-half-up of the ratio `n / d` (the ratio is never negative here).
pub open spec fn round_ratio(n: nat, d: nat) -> nat
    recommends
        d > 0,
{
    ((2 * n + d) / (2 * d)) as nat
}

/// Desired replicas for a deployment bounded by `[min, max]` whose queue holds
/// `backlog` jobs against a threshold `threshold`: interpolate linearly between
/// the bounds, round to nearest, clamp, and keep one worker running whenever
/// there is any backlog at all.
pub open spec fn replicas_for(min: nat, max: nat, backlog: nat, threshold: nat) -> nat
    recommends
        min <= max,
        threshold > 0,
{
    let span = (max - min) as nat;
    let raw = min + round_ratio(span * backlog, threshold);
    let clamped = if raw < min {
        min
    } else if raw > max {
        max
    } else {
        raw
    };
    if clamped == 0 && backlog > 0 {
        1
    } else {
        clamped
    }
}

/// A queue's fill level, `backlog / threshold`, kept as an exact ratio.
#[derive(Clone, Copy, Debug, PartialEq, Eq, Structural)]
pub struct Percentage {
    pub backlog: usize,
    pub threshold: usize,
}

impl Percentage {
    pub fn new(backlog: usize, threshold: usize) -> (p: Percentage)
        requires
            threshold > 0,
        ensures
            p.backlog == backlog,
            p.threshold == threshold,
    {
        Percentage { backlog, threshold }
    }
}

/// A pool of workers, scaled between `min_replicas` and `max_replicas`.
#[derive(Debug)]
pub struct Deployment {
    pub name: String,
    pub queues: Vec<String>,
    pub min_replicas: usize,
    pub max_replicas: usize,
}

impl Deployment {
    pub open spec fn wf(&self) -> bool {
        self.min_replicas <= self.max_replicas
    }

    /// Whether this deployment drains the queue named `q`.
    pub open spec fn serves(&self, q: Seq<char>) -> bool {
        exists|j: int| 0 <= j < self.queues@.len() && #[trigger] self.queues@[j]@ == q
    }

    pub fn serves_queue(&self, queue: &String) -> (r: bool)
        ensures
            r == self.serves(queue@),
    {
        let mut j: usize = 0;
        while j < self.queues.len()
            invariant
                j <= self.queues@.len(),
                forall|m: int| 0 <= m < j ==> self.queues@[m]@ != queue@,
            decreases self.queues@.len() - j,
        {
            if self.queues[j] == *queue {
                return true;
            }
            j = j + 1;
        }
        false
    }

    /// Replica count that this deployment should run at the given fill level.
    pub fn replicas_for_percentage(&self, percentage: Percentage) -> (r: usize)
        requires
            self.wf(),
            percentage.threshold > 0,
        ensures
            r == replicas_for(
                self.min_replicas as nat,
                self.max_replicas as nat,
                percentage.backlog as nat,
                percentage.threshold as nat,
            ),
            // an idle queue leaves the deployment at its minimum
            percentage.backlog == 0 ==> r == self.min_replicas,
            // a full queue asks for the maximum
            self.max_replicas > 0 && percentage.backlog == percentage.threshold ==> r
                == self.max_replicas,
            // far past the threshold the maximum still holds
            self.max_replicas > 0 && percentage.backlog >= 3 * percentage.threshold ==> r
                == self.max_replicas,
            // pending work never leaves a scale-to-zero deployment without a worker
            self.min_replicas == 0 && percentage.backlog > 0 ==> r >= 1,
    {
        let min = self.min_replicas;
        let max = self.max_replicas;
        let backlog = percentage.backlog;
        let threshold = percentage.threshold;
        let span: usize = max - min;
        proof {
            lemma_mul_fits(span, backlog);
        }
        let product: u128 = (span as u128) * (backlog as u128);
        let quotient: u128 = product / (threshold as u128);
        let remainder: u128 = product % (threshold as u128);
        assert(quotient <= product) by (nonlinear_arith)
            requires
                quotient == product / (threshold as u128),
                threshold > 0,
        ;
        let rounded: u128 = if 2 * remainder >= threshold as u128 {
            quotient + 1
        } else {
            quotient
        };
        proof {
            lemma_round_by_remainder(product as nat, threshold as nat);
            if backlog == 0 {
                assert(product == 0) by (nonlinear_arith)
                    requires
                        product == (span as u128) * (backlog as u128),
                        backlog == 0,
                ;
                assert(quotient == 0 && remainder == 0) by (nonlinear_arith)
                    requires
                        product == 0,
                        quotient == product / (threshold as u128),
                        remainder == product % (threshold as u128),
                        threshold > 0,
                ;
            }
            if backlog >= threshold {
                lemma_full_ratio_reaches_span(span as nat, backlog as nat, threshold as nat);
            }
        }
        let clamped: usize = if rounded > span as u128 {
            max
        } else {
            min + rounded as usize
        };
        if clamped == 0 && backlog > 0 {
            1
        } else {
            clamped
        }
    }
}

proof fn lemma_mul_fits(a: usize, b: usize)
    ensures
        (a as nat) * (b as nat) < u128::MAX,
{
    assert(a as nat * b as nat <= usize::MAX as nat * usize::MAX as nat) by (nonlinear_arith)
        requires
            a <= usize::MAX,
            b <= usize::MAX,
    ;
    assert((usize::MAX as nat) * (usize::MAX as nat) < u128::MAX) by (nonlinear_arith)
        requires
            usize::MAX <= u64::MAX,
    ;
}

/// Rounding by quotient and remainder agrees with `round_ratio`.
proof fn lemma_round_by_remainder(n: nat, d: nat)
    requires
        d > 0,
    ensures
        round_ratio(n, d) == if 2 * (n % d) >= d {
            n / d + 1
        } else {
            n / d
        },
{
    let q = n / d;
    let r = n % d;
    assert(n == q * d + r && r < d) by (nonlinear_arith)
        requires
            d > 0,
            q == n / d,
            r == n % d,
    ;
    assert(2 * n + d == q * (2 * d) + (2 * r + d)) by (nonlinear_arith)
        requires
            n == q * d + r,
    ;
    if 2 * r >= d {
        assert((2 * n + d) / (2 * d) == q + 1) by (nonlinear_arith)
            requires
                2 * n + d == q * (2 * d) + (2 * r + d),
                2 * r >= d,
                r < d,
                d > 0,
        ;
    } else {
        assert((2 * n + d) / (2 * d) == q) by (nonlinear_arith)
            requires
                2 * n + d == q * (2 * d) + (2 * r + d),
                2 * r < d,
                d > 0,
        ;
    }
}

/// At or past the threshold the interpolation covers the whole span.
proof fn lemma_full_ratio_reaches_span(span: nat, backlog: nat, threshold: nat)
    requires
        threshold > 0,
        backlog >= threshold,
    ensures
        round_ratio(span * backlog, threshold) >= span,
{
    assert(span * backlog >= span * threshold) by (nonlinear_arith)
        requires
            backlog >= threshold,
    ;
    assert((2 * (span * backlog) + threshold) / (2 * threshold) >= span) by (nonlinear_arith)
        requires
            span * backlog >= span * threshold,
            threshold > 0,
    ;
}

/// Per-queue thresholds: the backlog at which a deployment serving the queue
/// runs at its maximum.
#[derive(Debug)]
pub struct Autoscaling {
    pub max_jobs: Vec<(String, usize)>,
}

impl Autoscaling {
    /// No queue is listed twice.
    pub open spec fn keys_unique(&self) -> bool {
        forall|i: int, j: int|
            0 <= i < self.max_jobs@.len() && 0 <= j < self.max_jobs@.len() && i != j
                ==> #[trigger] self.max_jobs@[i].0@ != #[trigger] self.max_jobs@[j].0@
    }

    pub open spec fn has_threshold(&self, q: Seq<char>) -> bool {
        exists|i: int| 0 <= i < self.max_jobs@.len() && #[trigger] self.max_jobs@[i].0@ == q
    }

    /// The threshold configured for `q`, if any.
    pub open spec fn threshold_of(&self, q: Seq<char>) -> Option<nat> {
        if self.has_threshold(q) {
            let i = choose|i: int| 0 <= i < self.max_jobs@.len() && #[trigger] self.max_jobs@[i].0@ == q;
            Some(self.max_jobs@[i].1 as nat)
        } else {
            None
        }
    }

    pub fn threshold(&self, queue: &String) -> (r: Option<usize>)
        requires
            self.keys_unique(),
        ensures
            r matches Some(t) ==> self.threshold_of(queue@) == Some(t as nat),
            r is None ==> self.threshold_of(queue@) is None,
    {
        let mut i: usize = 0;
        while i < self.max_jobs.len()
            invariant
                i <= self.max_jobs@.len(),
                self.keys_unique(),
                forall|m: int| 0 <= m < i ==> self.max_jobs@[m].0@ != queue@,
            decreases self.max_jobs@.len() - i,
        {
            if self.max_jobs[i].0 == *queue {
                proof {
                    let c = choose|c: int|
                        0 <= c < self.max_jobs@.len() && #[trigger] self.max_jobs@[c].0@ == queue@;
                    assert(self.max_jobs@[i as int].0@ == queue@);
                    assert(self.max_jobs@[c].0@ == self.max_jobs@[i as int].0@);
                    assert(c == i);
                }
                return Some(self.max_jobs[i].1);
            }
            i = i + 1;
        }
        None
    }
}

/// Why a configuration is refused at load time.
#[derive(Debug, PartialEq, Eq)]
pub enum ConfigError {
    /// The deployment's minimum exceeds its maximum.
    InvalidBounds { deployment: String },
    /// The queue's threshold is zero.
    NonPositiveThreshold { queue: String },
    /// The queue has more than one threshold.
    DuplicateThreshold { queue: String },
}

/// Deployments and the thresholds that scale them.
#[derive(Debug)]
pub struct Config {
    pub deployments: Vec<Deployment>,
    pub autoscaling: Autoscaling,
}

impl Config {
    pub open spec fn bounds_valid(&self) -> bool {
        forall|k: int| 0 <= k < self.deployments@.len() ==> (#[trigger] self.deployments@[k]).wf()
    }

    pub open spec fn thresholds_positive(&self) -> bool {
        forall|i: int|
            0 <= i < self.autoscaling.max_jobs@.len() ==> (#[trigger] self.autoscaling.max_jobs@[i]).1
                > 0
    }

    /// A configuration that the engine can work with.
    pub open spec fn wf(&self) -> bool {
        &&& self.bounds_valid()
        &&& self.thresholds_positive()
        &&& self.autoscaling.keys_unique()
    }

    /// The replica count that deployment `d` asks for on account of queue `q`
    /// holding `jobs` jobs. A queue without a threshold keeps the deployment at
    /// its minimum, and at one worker at least.
    pub open spec fn candidate(&self, d: Deployment, q: Seq<char>, jobs: nat) -> nat {
        match self.autoscaling.threshold_of(q) {
            Some(t) => replicas_for(d.min_replicas as nat, d.max_replicas as nat, jobs, t),
            None => if d.min_replicas == 0 {
                1
            } else {
                d.min_replicas as nat
            },
        }
    }

    /// Deployment `k` drains the queue of snapshot entry `i`.
    pub open spec fn links(&self, snap: Seq<(String, usize)>, k: int, i: int) -> bool {
        &&& 0 <= k < self.deployments@.len()
        &&& 0 <= i < snap.len()
        &&& self.deployments@[k].serves(snap[i].0@)
    }

    /// What deployment `k` asks for on account of snapshot entry `i`.
    pub open spec fn candidate_at(&self, snap: Seq<(String, usize)>, k: int, i: int) -> nat {
        self.candidate(self.deployments@[k], snap[i].0@, snap[i].1 as nat)
    }

    /// Some deployment named as in `entry` asks for exactly its count on
    /// account of some queue of the snapshot.
    pub open spec fn attained(&self, snap: Seq<(String, usize)>, entry: (String, usize)) -> bool {
        exists|k: int, i: int|
            #[trigger] self.links(snap, k, i) && self.deployments@[k].name@ == entry.0@
                && self.candidate_at(snap, k, i) == entry.1
    }

    /// `result` is the desired-replicas mapping for the queue snapshot `snap`:
    /// exactly the deployments serving some queue of the snapshot appear, once
    /// each, with the largest of the counts that their queues ask for.
    pub open spec fn is_desired(&self, snap: Seq<(String, usize)>, result: Seq<(String, usize)>) -> bool {
        &&& names_unique(result)
        &&& forall|j: int| 0 <= j < result.len() ==> self.attained(snap, #[trigger] result[j])
        &&& forall|j: int, k: int, i: int|
            0 <= j < result.len() && #[trigger] self.links(snap, k, i)
                && self.deployments@[k].name@ == #[trigger] result[j].0@
                ==> self.candidate_at(snap, k, i) <= result[j].1
        &&& forall|k: int, i: int|
            #[trigger] self.links(snap, k, i) ==> exists|j: int|
                0 <= j < result.len() && #[trigger] result[j].0@ == self.deployments@[k].name@
    }

    /// Entry `i` of the snapshot has been merged for deployments up to `nk`
    /// when `i == ni`, and for all of them when `i < ni`.
    spec fn done(k: int, i: int, ni: int, nk: int) -> bool {
        i < ni || (i == ni && k < nk)
    }

    spec fn attained_upto(&self, snap: Seq<(String, usize)>, entry: (String, usize), ni: int, nk: int) -> bool {
        exists|k: int, i: int|
            #[trigger] self.links(snap, k, i) && Self::done(k, i, ni, nk)
                && self.deployments@[k].name@ == entry.0@ && self.candidate_at(snap, k, i) == entry.1
    }

    /// `result` is the desired-replicas mapping for the merged part of `snap`.
    spec fn merged_upto(&self, snap: Seq<(String, usize)>, result: Seq<(String, usize)>, ni: int, nk: int) -> bool {
        &&& names_unique(result)
        &&& forall|j: int|
            0 <= j < result.len() ==> self.attained_upto(snap, #[trigger] result[j], ni, nk)
        &&& forall|j: int, k: int, i: int|
            0 <= j < result.len() && #[trigger] self.links(snap, k, i) && Self::done(k, i, ni, nk)
                && self.deployments@[k].name@ == #[trigger] result[j].0@
                ==> self.candidate_at(snap, k, i) <= result[j].1
        &&& forall|k: int, i: int|
            #[trigger] self.links(snap, k, i) && Self::done(k, i, ni, nk) ==> exists|j: int|
                0 <= j < result.len() && #[trigger] result[j].0@ == self.deployments@[k].name@
    }

    proof fn lemma_merge_step(
        &self,
        snap: Seq<(String, usize)>,
        before: Seq<(String, usize)>,
        after: Seq<(String, usize)>,
        ni: int,
        nk: int,
        value: usize,
    )
        requires
            self.merged_upto(snap, before, ni, nk),
            self.links(snap, nk, ni),
            value == self.candidate_at(snap, nk, ni),
            names_unique(after),
            after.len() >= before.len(),
            forall|j: int| 0 <= j < before.len() ==> #[trigger] after[j].0@ == before[j].0@,
            forall|j: int|
                0 <= j < before.len() ==> #[trigger] after[j].1 == if before[j].0@
                    == self.deployments@[nk].name@ && value > before[j].1 {
                    value
                } else {
                    before[j].1
                },
            (exists|j: int| 0 <= j < before.len() && #[trigger] before[j].0@ == self.deployments@[nk].name@)
                ==> after.len() == before.len(),
            !(exists|j: int| 0 <= j < before.len() && #[trigger] before[j].0@ == self.deployments@[nk].name@)
                ==> after.len() == before.len() + 1 && after.last().0@ == self.deployments@[nk].name@
                && after.last().1 == value,
        ensures
            self.merged_upto(snap, after, ni, nk + 1),
    {
        let name = self.deployments@[nk].name@;
        let present = exists|j: int| 0 <= j < before.len() && #[trigger] before[j].0@ == name;
        assert forall|j: int| 0 <= j < after.len() implies self.attained_upto(
            snap,
            #[trigger] after[j],
            ni,
            nk + 1,
        ) by {
            if j < before.len() && !(before[j].0@ == name && value > before[j].1) {
                assert(self.attained_upto(snap, before[j], ni, nk));
                let (k2, i2) = choose|k2: int, i2: int|
                    #[trigger] self.links(snap, k2, i2) && Self::done(k2, i2, ni, nk)
                        && self.deployments@[k2].name@ == before[j].0@ && self.candidate_at(snap, k2, i2)
                        == before[j].1;
                assert(self.links(snap, k2, i2) && Self::done(k2, i2, ni, nk + 1));
            } else {
                assert(self.links(snap, nk, ni) && Self::done(nk, ni, ni, nk + 1));
            }
        }
        assert forall|j: int, k: int, i: int|
            0 <= j < after.len() && #[trigger] self.links(snap, k, i) && Self::done(k, i, ni, nk + 1)
                && self.deployments@[k].name@ == #[trigger] after[j].0@ implies self.candidate_at(
            snap,
            k,
            i,
        ) <= after[j].1 by {
            if j < before.len() {
                if k == nk && i == ni {
                } else {
                    assert(Self::done(k, i, ni, nk));
                    assert(self.candidate_at(snap, k, i) <= before[j].1);
                }
            } else {
                if k == nk && i == ni {
                } else {
                    assert(Self::done(k, i, ni, nk));
                    let j2 = choose|j2: int|
                        0 <= j2 < before.len() && #[trigger] before[j2].0@ == self.deployments@[k].name@;
                    assert(before[j2].0@ == name);
                    assert(present);
                }
            }
        }
        assert forall|k: int, i: int|
            #[trigger] self.links(snap, k, i) && Self::done(k, i, ni, nk + 1) implies exists|j: int|
                0 <= j < after.len() && #[trigger] after[j].0@ == self.deployments@[k].name@ by {
            if k == nk && i == ni {
                if present {
                    let j2 = choose|j2: int| 0 <= j2 < before.len() && #[trigger] before[j2].0@ == name;
                    assert(after[j2].0@ == name);
                } else {
                    assert(after[after.len() - 1].0@ == name);
                }
            } else {
                assert(Self::done(k, i, ni, nk));
                let j2 = choose|j2: int|
                    0 <= j2 < before.len() && #[trigger] before[j2].0@ == self.deployments@[k].name@;
                assert(after[j2].0@ == before[j2].0@);
            }
        }
    }

    /// Desired replicas for the queue snapshot `queue_lengths`: each deployment
    /// that serves a queue of the snapshot, with the largest count that any of
    /// its queues asks for. Deployments none of whose queues appear are left
    /// out.
    pub fn replicas(&self, queue_lengths: Vec<(String, usize)>) -> (r: Vec<(String, usize)>)
        requires
            self.wf(),
        ensures
            self.is_desired(queue_lengths@, r@),
    {
        let ghost snap = queue_lengths@;
        let mut results: Vec<(String, usize)> = Vec::new();
        let mut i: usize = 0;
        while i < queue_lengths.len()
            invariant
                snap == queue_lengths@,
                i <= snap.len(),
                self.wf(),
                self.merged_upto(snap, results@, i as int, 0),
            decreases snap.len() - i,
        {
            let queue = &queue_lengths[i].0;
            let jobs = queue_lengths[i].1;
            let mut k: usize = 0;
            while k < self.deployments.len()
                invariant
                    snap == queue_lengths@,
                    i < snap.len(),
                    k <= self.deployments@.len(),
                    self.wf(),
                    queue@ == snap[i as int].0@,
                    jobs == snap[i as int].1,
                    self.merged_upto(snap, results@, i as int, k as int),
                decreases self.deployments@.len() - k,
            {
                let deployment = &self.deployments[k];
                if deployment.serves_queue(queue) {
                    assert(self.deployments@[k as int].wf());
                    let value = self.candidate_replicas(deployment, queue, jobs);
                    let ghost before = results@;
                    merge_max(&mut results, &deployment.name, value);
                    proof {
                        self.lemma_merge_step(snap, before, results@, i as int, k as int, value);
                    }
                } else {
                    assert(!self.links(snap, k as int, i as int));
                }
                k = k + 1;
            }
            i = i + 1;
        }
        results
    }

    /// Checks the configuration once, when it is loaded: every deployment's
    /// bounds, then every threshold, then that no queue has two thresholds.
    /// The first violation found is reported.
    pub fn validate(&self) -> (r: Result<(), ConfigError>)
        ensures
            r is Ok <==> self.wf(),
            !self.bounds_valid() ==> r matches Err(ConfigError::InvalidBounds { .. }),
            self.bounds_valid() && !self.thresholds_positive() ==> r matches Err(
                ConfigError::NonPositiveThreshold { .. },
            ),
            r matches Err(ConfigError::InvalidBounds { deployment }) ==> exists|k: int|
                0 <= k < self.deployments@.len() && !(#[trigger] self.deployments@[k]).wf()
                    && self.deployments@[k].name@ == deployment@,
            r matches Err(ConfigError::NonPositiveThreshold { queue }) ==> exists|i: int|
                0 <= i < self.autoscaling.max_jobs@.len()
                    && (#[trigger] self.autoscaling.max_jobs@[i]).1 == 0
                    && self.autoscaling.max_jobs@[i].0@ == queue@,
            r matches Err(ConfigError::DuplicateThreshold { queue }) ==> exists|i: int, j: int|
                0 <= i < j < self.autoscaling.max_jobs@.len() && #[trigger] self.autoscaling.max_jobs@[i].0@
                    == queue@ && #[trigger] self.autoscaling.max_jobs@[j].0@ == queue@,
    {
        let mut k: usize = 0;
        while k < self.deployments.len()
            invariant
                k <= self.deployments@.len(),
                forall|m: int| 0 <= m < k ==> (#[trigger] self.deployments@[m]).wf(),
            decreases self.deployments@.len() - k,
        {
            let d = &self.deployments[k];
            if d.min_replicas > d.max_replicas {
                return Err(ConfigError::InvalidBounds { deployment: d.name.clone() });
            }
            k = k + 1;
        }
        let thresholds = &self.autoscaling.max_jobs;
        let mut i: usize = 0;
        while i < thresholds.len()
            invariant
                i <= thresholds@.len(),
                thresholds == &self.autoscaling.max_jobs,
                self.bounds_valid(),
                forall|m: int| 0 <= m < i ==> (#[trigger] thresholds@[m]).1 > 0,
            decreases thresholds@.len() - i,
        {
            if thresholds[i].1 == 0 {
                return Err(ConfigError::NonPositiveThreshold { queue: thresholds[i].0.clone() });
            }
            i = i + 1;
        }
        let mut j: usize = 0;
        while j < thresholds.len()
            invariant
                j <= thresholds@.len(),
                thresholds == &self.autoscaling.max_jobs,
                self.bounds_valid(),
                self.thresholds_positive(),
                forall|a: int, b: int|
                    0 <= a < b < j ==> #[trigger] thresholds@[a].0@ != #[trigger] thresholds@[b].0@,
            decreases thresholds@.len() - j,
        {
            let mut a: usize = 0;
            while a < j
                invariant
                    j < thresholds@.len(),
                    a <= j,
                    thresholds == &self.autoscaling.max_jobs,
                    self.bounds_valid(),
                    self.thresholds_positive(),
                    forall|x: int, y: int|
                        0 <= x < y < j ==> #[trigger] thresholds@[x].0@ != #[trigger] thresholds@[y].0@,
                    forall|x: int| 0 <= x < a ==> #[trigger] thresholds@[x].0@ != thresholds@[j as int].0@,
                decreases j - a,
            {
                if thresholds[a].0 == thresholds[j].0 {
                    return Err(ConfigError::DuplicateThreshold { queue: thresholds[j].0.clone() });
                }
                a = a + 1;
            }
            j = j + 1;
        }
        proof {
            assert forall|x: int, y: int|
                0 <= x < thresholds@.len() && 0 <= y < thresholds@.len() && x != y implies #[trigger] thresholds@[x].0@
                != #[trigger] thresholds@[y].0@ by {
                if x < y {
                } else {
                }
            }
        }
        Ok(())
    }

    /// Replica count that `deployment` asks for on account of `queue` holding
    /// `jobs` jobs.
    pub fn candidate_replicas(&self, deployment: &Deployment, queue: &String, jobs: usize) -> (r: usize)
        requires
            self.wf(),
            deployment.wf(),
        ensures
            r == self.candidate(*deployment, queue@, jobs as nat),
            !self.autoscaling.has_threshold(queue@) ==> r == if deployment.min_replicas == 0 {
                1
            } else {
                deployment.min_replicas
            },
    {
        match self.autoscaling.threshold(queue) {
            Some(t) => {
                proof {
                    let i = choose|i: int|
                        0 <= i < self.autoscaling.max_jobs@.len()
                            && #[trigger] self.autoscaling.max_jobs@[i].0@ == queue@;
                    assert(self.autoscaling.max_jobs@[i].1 > 0);
                }
                deployment.replicas_for_percentage(Percentage::new(jobs, t))
            },
            None => if deployment.min_replicas == 0 {
                1
            } else {
                deployment.min_replicas
            },
        }
    }
}

/// The largest of the counts that deployment `k` asks for on account of the
/// first `n` entries of `snap` that it serves; zero when it serves none.
pub open spec fn max_candidate(cfg: Config, snap: Seq<(String, usize)>, k: int, n: int) -> nat
    decreases n,
{
    if n <= 0 {
        0
    } else {
        let rest = max_candidate(cfg, snap, k, n - 1);
        if cfg.links(snap, k, n - 1) && cfg.candidate_at(snap, k, n - 1) > rest {
            cfg.candidate_at(snap, k, n - 1)
        } else {
            rest
        }
    }
}

proof fn lemma_max_candidate_bounds(cfg: Config, snap: Seq<(String, usize)>, k: int, n: int)
    ensures
        forall|i: int|
            0 <= i < n && #[trigger] cfg.links(snap, k, i) ==> cfg.candidate_at(snap, k, i)
                <= max_candidate(cfg, snap, k, n),
        max_candidate(cfg, snap, k, n) == 0 || exists|i: int|
            0 <= i < n && #[trigger] cfg.links(snap, k, i) && cfg.candidate_at(snap, k, i)
                == max_candidate(cfg, snap, k, n),
    decreases n,
{
    if n > 0 {
        lemma_max_candidate_bounds(cfg, snap, k, n - 1);
    }
}

/// Deployment names identify deployments.
pub open spec fn deployment_names_unique(cfg: Config) -> bool {
    forall|a: int, b: int|
        0 <= a < cfg.deployments@.len() && 0 <= b < cfg.deployments@.len() && a != b
            ==> #[trigger] cfg.deployments@[a].name@ != #[trigger] cfg.deployments@[b].name@
}

/// Merge law: where deployment `k` appears in a desired-replicas result, its
/// count is the largest of the candidates that its queues in the snapshot
/// ask for one by one.
pub proof fn lemma_merge_is_max(
    cfg: Config,
    snap: Seq<(String, usize)>,
    result: Seq<(String, usize)>,
    k: int,
    j: int,
)
    requires
        cfg.is_desired(snap, result),
        deployment_names_unique(cfg),
        0 <= k < cfg.deployments@.len(),
        0 <= j < result.len(),
        result[j].0@ == cfg.deployments@[k].name@,
    ensures
        result[j].1 == max_candidate(cfg, snap, k, snap.len() as int),
{
    let n = snap.len() as int;
    lemma_max_candidate_bounds(cfg, snap, k, n);
    assert(cfg.attained(snap, result[j]));
    let (k2, i2) = choose|k2: int, i2: int|
        #[trigger] cfg.links(snap, k2, i2) && cfg.deployments@[k2].name@ == result[j].0@
            && cfg.candidate_at(snap, k2, i2) == result[j].1;
    assert(k2 == k);
    assert(cfg.candidate_at(snap, k, i2) <= max_candidate(cfg, snap, k, n));
    if max_candidate(cfg, snap, k, n) != 0 {
        let i3 = choose|i3: int|
            0 <= i3 < n && #[trigger] cfg.links(snap, k, i3) && cfg.candidate_at(snap, k, i3)
                == max_candidate(cfg, snap, k, n);
        assert(cfg.candidate_at(snap, k, i3) <= result[j].1);
    }
}

/// No name occurs twice among the pairs.
pub open spec fn names_unique(v: Seq<(String, usize)>) -> bool {
    forall|i: int, j: int|
        0 <= i < v.len() && 0 <= j < v.len() && i != j ==> #[trigger] v[i].0@ != #[trigger] v[j].0@
}

/// Records `value` for `name`, keeping the larger of it and any count that is
/// already there.
fn merge_max(results: &mut Vec<(String, usize)>, name: &String, value: usize)
    requires
        names_unique(old(results)@),
    ensures
        names_unique(final(results)@),
        final(results)@.len() >= old(results)@.len(),
        forall|j: int|
            0 <= j < old(results)@.len() ==> #[trigger] final(results)@[j].0@ == old(results)@[j].0@,
        forall|j: int|
            0 <= j < old(results)@.len() ==> #[trigger] final(results)@[j].1 == if old(results)@[j].0@
                == name@ && value > old(results)@[j].1 {
                value
            } else {
                old(results)@[j].1
            },
        (exists|j: int| 0 <= j < old(results)@.len() && #[trigger] old(results)@[j].0@ == name@)
            ==> final(results)@.len() == old(results)@.len(),
        !(exists|j: int| 0 <= j < old(results)@.len() && #[trigger] old(results)@[j].0@ == name@)
            ==> final(results)@.len() == old(results)@.len() + 1 && final(results)@.last().0@ == name@
            && final(results)@.last().1 == value,
{
    let mut j: usize = 0;
    while j < results.len()
        invariant
            j <= results@.len(),
            results@ == old(results)@,
            names_unique(old(results)@),
            forall|m: int| 0 <= m < j ==> results@[m].0@ != name@,
        decreases results@.len() - j,
    {
        if results[j].0 == *name {
            if value > results[j].1 {
                let key = results[j].0.clone();
                results.set(j, (key, value));
                assert forall|m: int| 0 <= m < results@.len() implies #[trigger] results@[m].0@
                    == old(results)@[m].0@ by {
                    if m == j {
                        assert(results@[m].0 == key);
                    }
                }
            }
            return;
        }
        j = j + 1;
    }
    results.push((name.clone(), value));
}

} // verus!
