pub mod xl_entry;
