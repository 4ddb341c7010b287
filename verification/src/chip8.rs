pub mod cpu;
pub mod display;
pub mod keypad;
pub mod laws;
pub mod memory;
pub mod module;
pub mod multy_executor;
pub mod opcode;
