pub mod logic;
pub mod states;
pub mod wire;
pub mod laws;
