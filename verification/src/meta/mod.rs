pub mod fuzz;
pub mod meta_mgr;
