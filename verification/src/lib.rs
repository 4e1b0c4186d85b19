//! Keeps the tagged dashboards of a fleet of peer instances the same on every
//! instance.
//!
//! No instance is the master. In every sync cycle each instance reports its
//! tagged dashboards; for every dashboard that is not already the same
//! everywhere the newest copy is chosen, or its deletion once it has grown
//! stale; the folders that the chosen copies need are provided; and the
//! choice is brought to every instance.
//!
//! - [`dashboard_state`] holds the reports of a cycle and decides.
//! - [`reconciliation_laws`] states what holds of every decision.
//! - [`mirror`] finds the folders that the decisions need.
//! - [`service`] leads through the stages of a cycle.
//! - [`api`] describes the requests to an instance and what it answers.
//! - [`config`], [`instance`], [`encrypted_cred`] and [`error`] set the fleet
//!   up from a configuration.
//! - [`timestamp`] and [`lexical`] order points in time and instance names.
//!
//! This library sends nothing and waits for nothing: it says what is to be
//! sent, and takes what came back.

pub mod api;
pub mod config;
pub mod dashboard_state;
pub mod encrypted_cred;
pub mod error;
pub mod instance;
pub mod lexical;
pub mod mirror;
pub mod reconciliation_laws;
pub mod service;
pub mod timestamp;
