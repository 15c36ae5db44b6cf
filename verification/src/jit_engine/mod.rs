pub mod table;
pub mod runtime;
pub mod stats;
pub mod addr_index;
