//! Core of a Kubernetes operator that keeps one `Deployment` of the echo
//! server in step with each `Echo` custom resource.
//!
//! The crate decides and leaves the talking to its caller. A watch reports
//! a change: `watch` names the resource to reconcile, `store` remembers what
//! was seen, and `scheduler` gathers the triggers of a burst into one run.
//! `reconcile` then leads one reconciliation request by request: the caller
//! makes each request against the API server and hands back the answer.
//! What holds of every reconciliation, whatever the server answers, is
//! proved in `trace`. `metrics` counts what happens on the way.

pub mod client;
pub mod controller;
pub mod crd;
pub mod deployment;
pub mod error;
pub mod event;
pub mod finalizer;
pub mod keyed;
pub mod labels;
pub mod meta;
pub mod metrics;
pub mod queue;
pub mod reconcile;
pub mod scheduler;
pub mod status;
pub mod store;
pub mod text;
pub mod trace;
pub mod url;
pub mod watch;
