//! The native containers that handles name.
pub mod hash_map;
pub mod slice;
pub mod vector;
