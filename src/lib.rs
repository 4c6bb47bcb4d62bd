pub mod cpu;
pub mod display;
pub mod instruction;
pub mod keypad;
pub mod laws;
pub mod model;
