//! Verified core of the outl outliner: the query language and engine,
//! block layout, the reconcile volume guard, sidecar naming, property and
//! palette values, and the plugin-facing data model and queries.

pub mod backlinks;
pub mod batch;
pub mod cli;
pub mod desync;
pub mod doctor;
pub mod guard;
pub mod icons;
pub mod id;
pub mod page_query;
pub mod palette;
pub mod plugin_host;
pub mod plugin_init;
pub mod plugin_model;
pub mod plugin_query;
pub mod prop_edit;
pub mod property;
pub mod query;
pub mod reconcile;
pub mod registry;
pub mod sidecar;
pub mod sort;
pub mod text;
pub mod view;
