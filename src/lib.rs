//! An indexed, resizable sequence of elements laid over a key-value space.
//!
//! A collection is named by a byte prefix. Each element lives in a slot whose
//! key is the prefix followed by the little-endian bytes of its index; the
//! length lives under the prefix followed by `len`. Slots that were never
//! written, or were cleared, read as the element default (zero).

mod keys;
mod storage_vec;

pub use keys::{element_key, len_key};
pub use storage_vec::StorageVec;
