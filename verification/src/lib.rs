//! Verified core of a small data / feature pipeline toolkit.
//!
//! * [`job`]: the engine that runs SQL transformation jobs over registered
//!   sources and routes the result to a preview or to a versioned sink.
//! * [`lightgbm_model`]: the column layout that a gradient-boosting model
//!   expects, and how rows are brought into it.
//! * [`registry`]: the feature registry, which says what features the
//!   feature views and feature services hold.
//! * [`text`]: the `view:feature` naming scheme of the feature registry.

pub mod job;
pub mod lightgbm_model;
pub mod registry;
pub mod text;
