//! A process-wide configuration store: a layered loader that merges override
//! documents over built-in defaults and validates the result strictly, an
//! atomically swappable cell holding the current snapshot, and the encoders
//! that persist a snapshot in its preferred format.

pub mod config;
pub mod document;
pub mod validate;
pub mod loader;
pub mod codec;
pub mod cell;
