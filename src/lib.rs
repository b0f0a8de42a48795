//! Queue-driven autoscaling decisions for background-job worker deployments.
//!
//! The library maps broker queue backlog to desired replica counts and drives
//! the fetch / decide / wait control loop as a pure state machine. Talking to
//! the cluster and to the broker is left to the embedding program.
pub mod config;
pub mod cluster_state;
pub mod scaler;
pub mod sidekiq;
