//! One handler for each command.

pub mod get_address;
pub mod get_version;
pub mod sign_data;
pub mod sign_msg;
pub mod sign_tx;
