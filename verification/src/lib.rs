pub mod analyzer;
pub mod assoc;
pub mod ast;
pub mod cli;
pub mod cluster;
pub mod format;
pub mod loader;
pub mod lsp;
pub mod numbers;
pub mod install;
pub mod runtime;
pub mod text;
pub mod token;
