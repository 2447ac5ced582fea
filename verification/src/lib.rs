pub mod arc_length;
pub mod chain;
pub mod movement;
