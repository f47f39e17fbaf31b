pub mod hover;
pub mod symbols;
