pub mod endian;
pub mod error;
pub mod id;
pub mod sorted;
