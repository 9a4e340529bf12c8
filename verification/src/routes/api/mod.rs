pub mod cluster;
pub mod containers;
pub mod dhcp;
pub mod nodes;
pub mod proxmox;
pub mod servers;
pub mod system;
