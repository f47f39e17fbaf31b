pub mod adapters;
pub mod aggregate;
pub mod docker;
pub mod engine;
pub mod eval;
pub mod error;
pub mod feeds;
pub mod lsl;
pub mod process;
pub mod proxmox;
pub mod rules;
pub mod state_store;
pub mod store;
pub mod update;
pub mod value;
