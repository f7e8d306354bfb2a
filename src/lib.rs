pub mod facts;
pub mod node;
pub mod tree;
