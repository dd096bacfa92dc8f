use vstd::prelude::*;

pub mod access;
pub mod attrs;
pub mod error;
pub mod flatten;
pub mod flatten_laws;
pub mod keys;
pub mod model;
pub mod split;
pub mod structure;

pub use access::{accept_if, set_if};
pub use error::{GetError, InsertionError};
pub use keys::{route_key, KeyRoute};
pub use split::split_once;

verus! {
} // verus!
