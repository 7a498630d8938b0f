//! Core of a client-side document site: hierarchical path algebra, a widget
//! registry, a declarative widget effect queue, the document loader state
//! machine, and the dependency-scoped recursive render decision.

pub mod browse;
pub mod constants;
pub mod context;
pub mod dependencies;
pub mod error;
pub mod orders;
pub mod manifests;
pub mod path;
pub mod path_map;
pub mod registry;
pub mod widget;
