//! Inspection and desktop integration of AppImage bundles.
//!
//! The native AppImage runtime is reached from the application layer; this
//! library holds the decisions made around those calls: how classification
//! codes and status codes are read, how arguments are made safe to hand over
//! as C strings, how the embedded desktop entry is parsed, and how the
//! metadata record is assembled from it.

pub mod error;
pub mod detection;
pub mod text;
pub mod desktop_entry;
pub mod metadata;
pub mod bridge;
pub mod laws;
