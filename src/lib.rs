//! Staged build pipeline over a package registry's source corpus: package
//! identifiers and their on-disk layout, the configuration, the catalog, the
//! bounded fetch scheduler and the per-item decisions of the transform stages.
pub mod identifier;
pub mod layout;
pub mod catalog;
pub mod config;
pub mod fetch;
pub mod stage;
