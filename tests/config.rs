use sidekiq_kubernetes_autoscaler::config::{
    Autoscaling, Config, ConfigError, Deployment, Percentage,
};
use std::collections::HashMap;

fn deployment(name: &str, queues: &[&str], min_replicas: usize, max_replicas: usize) -> Deployment {
    Deployment {
        name: name.to_string(),
        queues: queues.iter().map(|q| q.to_string()).collect(),
        min_replicas,
        max_replicas,
    }
}

fn thresholds(pairs: &[(&str, usize)]) -> Autoscaling {
    Autoscaling {
        max_jobs: pairs.iter().map(|(q, t)| (q.to_string(), *t)).collect(),
    }
}

fn snapshot(pairs: &[(&str, usize)]) -> Vec<(String, usize)> {
    pairs.iter().map(|(q, n)| (q.to_string(), *n)).collect()
}

#[test]
fn replicas_for_percentage() {
    // (min, max, backlog / threshold, expected)
    let cases = vec![
        (0, 10, Percentage::new(1, 1), 10),
        (0, 10, Percentage::new(3, 1), 10),
        (0, 10, Percentage::new(0, 1), 0),
        (1, 10, Percentage::new(0, 1), 1),
        (0, 10, Percentage::new(1, 10), 1),
        (0, 10, Percentage::new(1, 100), 1),
    ];
    for (min_replicas, max_replicas, percentage, expected) in cases {
        let d = Deployment {
            name: "Test 1".to_string(),
            queues: vec!["queue-1".to_string(), "queue-2".to_string()],
            min_replicas,
            max_replicas,
        };
        assert_eq!(d.replicas_for_percentage(percentage), expected);
    }
}

#[test]
fn replicas_for_percentage_unknown_queue() {
    let mut d = Deployment {
        name: "Test 1".to_string(),
        queues: vec!["unknown-queue".to_string()],
        min_replicas: 1,
        max_replicas: 10,
    };
    assert_eq!(d.replicas_for_percentage(Percentage::new(0, 1)), 1);
    assert_eq!(d.replicas_for_percentage(Percentage::new(1, 10_000_000)), 1);
    assert_eq!(d.replicas_for_percentage(Percentage::new(1, 1)), 10);

    d.min_replicas = 0;
    assert_eq!(d.replicas_for_percentage(Percentage::new(0, 1)), 0);
    assert_eq!(d.replicas_for_percentage(Percentage::new(1, 10_000_000)), 1);
}

#[test]
fn replicas() {
    let c = Config {
        deployments: vec![
            deployment("Test 1", &["queue-1", "queue-2"], 0, 10),
            deployment("Test 2", &["queue-1"], 0, 20),
            deployment("Test 3", &["queue-3"], 0, 10),
        ],
        autoscaling: thresholds(&[("queue-1", 100), ("queue-2", 100)]),
    };
    assert_eq!(c.validate(), Ok(()));

    let h: HashMap<String, usize> = c
        .replicas(snapshot(&[("queue-1", 50), ("queue-2", 0), ("unknown-queue", 100)]))
        .into_iter()
        .collect();
    assert_eq!(h.len(), 2);
    assert_eq!(*h.get(&"Test 1".to_string()).unwrap(), 5 as usize);
    assert_eq!(*h.get(&"Test 2".to_string()).unwrap(), 10 as usize);
}

#[test]
fn idle_queue_leaves_minimum() {
    assert_eq!(deployment("d", &[], 0, 10).replicas_for_percentage(Percentage::new(0, 7)), 0);
    assert_eq!(deployment("d", &[], 4, 10).replicas_for_percentage(Percentage::new(0, 7)), 4);
}

#[test]
fn full_queue_asks_for_maximum() {
    assert_eq!(deployment("d", &[], 0, 10).replicas_for_percentage(Percentage::new(100, 100)), 10);
    assert_eq!(deployment("d", &[], 3, 7).replicas_for_percentage(Percentage::new(9, 9)), 7);
}

#[test]
fn overfull_queue_is_clamped_to_maximum() {
    assert_eq!(deployment("d", &[], 0, 10).replicas_for_percentage(Percentage::new(300, 100)), 10);
    assert_eq!(deployment("d", &[], 2, 5).replicas_for_percentage(Percentage::new(1000, 1)), 5);
}

#[test]
fn small_backlog_keeps_one_worker() {
    let d = deployment("d", &[], 0, 10);
    assert_eq!(d.replicas_for_percentage(Percentage::new(1, 1000)), 1);
    assert_eq!(d.replicas_for_percentage(Percentage::new(1, usize::MAX)), 1);
}

#[test]
fn zero_maximum_still_runs_a_worker_for_pending_work() {
    let d = deployment("d", &[], 0, 0);
    assert_eq!(d.replicas_for_percentage(Percentage::new(0, 1)), 0);
    assert_eq!(d.replicas_for_percentage(Percentage::new(5, 1)), 1);
}

#[test]
fn interpolation_rounds_to_nearest() {
    let d = deployment("d", &[], 0, 10);
    // 10 * 0.14 = 1.4
    assert_eq!(d.replicas_for_percentage(Percentage::new(14, 100)), 1);
    // 10 * 0.15 = 1.5, halves round up
    assert_eq!(d.replicas_for_percentage(Percentage::new(15, 100)), 2);
    // 10 * 0.55 = 5.5
    assert_eq!(d.replicas_for_percentage(Percentage::new(55, 100)), 6);
    // min + round(6 * 0.5) = 2 + 3
    let e = deployment("e", &[], 2, 8);
    assert_eq!(e.replicas_for_percentage(Percentage::new(1, 2)), 5);
}

#[test]
fn largest_values_do_not_overflow() {
    let d = deployment("d", &[], 0, usize::MAX);
    assert_eq!(d.replicas_for_percentage(Percentage::new(usize::MAX, usize::MAX)), usize::MAX);
    assert_eq!(d.replicas_for_percentage(Percentage::new(usize::MAX, 1)), usize::MAX);
    assert_eq!(d.replicas_for_percentage(Percentage::new(1, 2)), usize::MAX / 2 + 1);
}

#[test]
fn unconfigured_queue_uses_default() {
    let c = Config {
        deployments: vec![],
        autoscaling: thresholds(&[("known", 10)]),
    };
    let scale_to_zero = deployment("a", &["other"], 0, 10);
    let with_floor = deployment("b", &["other"], 3, 10);
    assert_eq!(c.candidate_replicas(&scale_to_zero, &"other".to_string(), 500), 1);
    assert_eq!(c.candidate_replicas(&with_floor, &"other".to_string(), 500), 3);
    assert_eq!(c.candidate_replicas(&scale_to_zero, &"other".to_string(), 0), 1);
    // a configured queue goes through the threshold
    assert_eq!(c.candidate_replicas(&scale_to_zero, &"known".to_string(), 5), 5);
}

#[test]
fn shared_deployment_takes_largest_candidate() {
    let c = Config {
        deployments: vec![deployment("shared", &["a", "b", "c"], 0, 10)],
        autoscaling: thresholds(&[("a", 100), ("b", 10), ("c", 100)]),
    };
    // candidates: a -> 2, b -> 5, c -> 0
    let r = c.replicas(snapshot(&[("a", 20), ("b", 5), ("c", 0)]));
    assert_eq!(r, vec![("shared".to_string(), 5)]);
    // the quiet queue alone leaves the deployment at zero
    let r = c.replicas(snapshot(&[("c", 0)]));
    assert_eq!(r, vec![("shared".to_string(), 0)]);
}

#[test]
fn empty_snapshot_gives_empty_result() {
    let c = Config {
        deployments: vec![deployment("d", &["q"], 1, 3)],
        autoscaling: thresholds(&[("q", 10)]),
    };
    assert!(c.replicas(Vec::new()).is_empty());
}

#[test]
fn unknown_queue_with_floor_in_replicas() {
    let c = Config {
        deployments: vec![deployment("d", &["q"], 2, 3)],
        autoscaling: thresholds(&[]),
    };
    assert_eq!(c.replicas(snapshot(&[("q", 0)])), vec![("d".to_string(), 2)]);
}

#[test]
fn validate_reports_bounds() {
    let c = Config {
        deployments: vec![deployment("ok", &[], 0, 1), deployment("bad", &[], 5, 1)],
        autoscaling: thresholds(&[("q", 0)]),
    };
    assert_eq!(
        c.validate(),
        Err(ConfigError::InvalidBounds { deployment: "bad".to_string() })
    );
}

#[test]
fn validate_reports_zero_threshold() {
    let c = Config {
        deployments: vec![deployment("ok", &[], 1, 1)],
        autoscaling: thresholds(&[("q1", 3), ("q2", 0)]),
    };
    assert_eq!(
        c.validate(),
        Err(ConfigError::NonPositiveThreshold { queue: "q2".to_string() })
    );
}

#[test]
fn validate_reports_duplicate_threshold() {
    let c = Config {
        deployments: vec![],
        autoscaling: thresholds(&[("q1", 3), ("q2", 4), ("q1", 5)]),
    };
    assert_eq!(
        c.validate(),
        Err(ConfigError::DuplicateThreshold { queue: "q1".to_string() })
    );
}

#[test]
fn threshold_lookup() {
    let a = thresholds(&[("q1", 3), ("q2", 4)]);
    assert_eq!(a.threshold(&"q2".to_string()), Some(4));
    assert_eq!(a.threshold(&"q3".to_string()), None);
}

#[test]
fn serves_queue_checks_names() {
    let d = deployment("d", &["high", "low"], 0, 1);
    assert!(d.serves_queue(&"low".to_string()));
    assert!(!d.serves_queue(&"lo".to_string()));
}
