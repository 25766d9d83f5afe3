//! Estamora: the logic of a conformance runner for Soroban contracts.
#![allow(unused_imports)]

pub mod text;
pub mod fixture;
pub mod interface;
pub mod vector_model;
pub mod taxonomy;
pub mod report_model;
pub mod digest;
pub mod identifier;
pub mod sanitise;
pub mod markdown;
pub mod junit;
pub mod expr;
pub mod profile_model;
pub mod references;
pub mod spec_version;
pub mod bundle;
pub mod integer;
pub mod vector_validate;
pub mod corpus;
pub mod wasm;
pub mod network;
pub mod node_entry;
pub mod ledger;
pub mod token;
pub mod fixture_token;
