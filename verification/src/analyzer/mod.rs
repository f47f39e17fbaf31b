pub mod check;
pub mod fields;
pub mod graph;
pub mod help;
pub mod infer;
pub mod passes;
pub mod register;
pub mod types;
