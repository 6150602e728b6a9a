//! A named-quantity registry served over HTTP: a single in-memory mapping
//! from a string name to an integer quantity, shared between concurrent
//! request handlers under a reader/writer locking discipline.
//!
//! The registry logic and the lock discipline live here, verified; the HTTP
//! plumbing (routing, JSON bodies, the listener) stays outside the library.

pub mod handlers;
pub mod laws;
pub mod registry;
pub mod store;

pub use handlers::ClientError;
pub use handlers::Id;
pub use handlers::Item;
pub use registry::Entry;
pub use registry::Registry;
pub use store::Store;
