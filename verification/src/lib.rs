//! A library for turning an infrastructure provisioning plan into a
//! navigable, redaction-safe change set.
//!
//! The pipeline runs in one direction: a generic structured value
//! ([`json::JsonValue`]) is checked against the strict plan schema
//! ([`plan::TfPlan`]), each resource change is classified ([`verb::Verb`]),
//! every attribute is resolved to a before/after state pair, and the result
//! is aggregated into an immutable [`diff::TrowelDiff`], which answers the
//! read-only queries a presentation layer needs.

pub mod client;
pub mod diff;
pub mod error;
pub mod json;
pub mod laws;
pub mod plan;
pub mod state;
pub mod strutil;
pub mod tree;
pub mod verb;
pub mod widget;
