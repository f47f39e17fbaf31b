pub mod election;
pub mod gossip;
pub mod node;
pub mod state_mesh;
pub mod wal;
