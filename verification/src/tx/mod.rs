pub mod lock_slot;
pub mod x_snap_mgr;
