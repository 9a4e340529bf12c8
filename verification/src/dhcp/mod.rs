pub mod error;
pub mod addr;
pub mod mac;
pub mod lease;
pub mod packet;
pub mod firewall;
pub mod reply;
pub mod laws;
