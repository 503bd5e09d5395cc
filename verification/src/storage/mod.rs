pub mod constant;
pub mod extent;
pub mod page_block;
pub mod page_index;
pub mod log_entry;
pub mod bufer_manager;
pub mod data_file;
pub mod frame;
pub mod frame_ctrl;
pub mod storage_cfg;
pub mod table_space;
