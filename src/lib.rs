//! Small owned containers with verified contracts: a growable array with an
//! explicit doubling capacity, three bucket-based maps keyed by strings
//! through a SHA-256 digest, and a singly linked list.
pub mod dyn_array;
pub mod hashing;
pub mod hashmap_v1;
pub mod hashmap_v3;
pub mod hashmap_v4;
pub mod linked_lists;
