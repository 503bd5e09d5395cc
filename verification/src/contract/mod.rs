pub mod x_lock_mgr;
pub mod xl_batch;
