//! A document-model library for resource-oriented API payloads.
//!
//! Two JSON document dialects live side by side: a full dialect with
//! resources, resource identifiers, relationship objects and mutually
//! exclusive data/error bodies, and a simplified dialect with flattened
//! resource, relationship and include lists. Every document is assembled
//! through staged builders that make a structurally incomplete value
//! unrepresentable, and is rendered to its exact wire form by a verified
//! JSON encoder.

pub mod json;
pub mod v1;
pub mod v2;
pub mod greet;
pub mod service;
pub mod cli;
pub mod web;
