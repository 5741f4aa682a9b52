//! An autoscaling controller for ephemeral CI job runners, as a library of
//! decisions.
//!
//! The controller watches a CI service for queued jobs that its sandboxes can
//! run, launches a fresh sandbox for each, and cleans up after it. This
//! library holds what the controller decides and leaves to the program
//! around it what takes time: talking to the CI service, driving the
//! sandboxes, sleeping.
//!
//! - [`listener`] is the reconciling scheduler, [`schedule`] its decisions as
//!   mathematics, and [`protocol`] what passes between it and the world.
//! - [`state`] is the durable index of sandbox assignments.
//! - [`github`] writes the requests to the CI service and judges the answers.
//! - [`config`], [`container`], [`http`] and [`text`] are the smaller parts:
//!   settings, sandbox names, the status page, and numbers and text.

pub mod config;
pub mod container;
pub mod github;
pub mod http;
pub mod listener;
pub mod protocol;
pub mod schedule;
pub mod state;
pub mod text;
