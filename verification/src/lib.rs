pub mod text;
pub mod config;
pub mod dhcp;
pub mod time;
pub mod proxmox;
pub mod routes;
pub mod auth;
pub mod daemon;
pub mod cli;
pub mod service_install;
pub mod vnc_assets;
