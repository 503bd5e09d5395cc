pub mod hash_map;
pub mod tree_map;
