//! A map from keys to values of any type. The type of the value under a key
//! is fixed by the first insertion under that key and enforced afterwards.
pub mod erased;
pub mod laws;
pub mod map;
pub mod registry;
pub mod store;
