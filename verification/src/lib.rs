//! Reconciliation engine for cloud-backed secret resources.
//!
//! A `CloudSecret` resource declares which keys of an external secret store
//! should be mirrored into a derived platform secret, together with per-key
//! create / rotate / validate actions. This crate holds the verified core of
//! the controller that drives such resources: interval parsing, action
//! resolution, sync planning, plan application, the status state machine and
//! the per-resource scheduler. Platform and provider I/O live outside; the
//! engine works on plain values handed in by its caller.

use vstd::prelude::*;

pub mod actions;
pub mod crds;
pub mod interval;
pub mod pattern;
pub mod plan;
pub mod reconcile;
pub mod sched;
pub mod secret;
pub mod status;
