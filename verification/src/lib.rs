//! Analyze and render hierarchical size data (typically a filesystem subtree)
//! as a proportional, text-rendered tree for terminal display.
//!
//! The crate has three cooperating parts:
//! - a tree builder that aggregates per-node sizes from a caller-supplied
//!   data source into a [`tree::Tree`],
//! - a progress reporter that turns scan events into monotone counters and
//!   echoes each change to a caller-supplied observer,
//! - a visualizer that lays a built tree out as fixed-width text rows with
//!   skeleton glyphs and a proportional bar column.

pub mod bytes_format;
pub mod error_report;
pub mod progress_report;
pub mod size;
pub mod tree;
pub mod tree_builder;
pub mod visualizer;
