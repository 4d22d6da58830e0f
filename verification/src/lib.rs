//! A typed heterogeneous preference store.
//!
//! One persisted container holds at most one value per registered data type,
//! addressed by a type identifier rather than by a caller-chosen string key.
//! A registry-driven codec turns the store into an ordered document and back,
//! resolving ambiguous type names and degrading gracefully when a stored
//! value's shape has drifted from its registration. A debounced scheduler
//! decides when the document is flushed to a storage backend, and the write
//! protocol replaces the persisted document atomically.

use vstd::prelude::*;

pub mod atomic;
pub mod codec;
pub mod coerce;
pub mod entries;
pub mod error;
pub mod laws;
pub mod map;
pub mod order;
pub mod plugin;
pub mod registry;
pub mod resource;
pub mod scheduler;
pub mod value;

pub use crate::codec::Document;
pub use crate::error::PreferencesError;
pub use crate::map::PreferencesMap;
pub use crate::registry::PreferencesRegistry;
pub use crate::registry::Registration;
pub use crate::registry::TypePath;
pub use crate::resource::MutatePreferencesGuard;
pub use crate::resource::PreferencesResource;
pub use crate::scheduler::SaveScheduler;
pub use crate::value::Value;

verus! {

} // verus!
