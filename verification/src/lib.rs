//! A CHIP-8 interpreter core: instruction decoding, the CPU state, memory,
//! the monochrome frame buffer and the hexadecimal keypad, with every
//! instruction's effect on the machine stated as a contract.
pub mod chip8;
pub mod cpu;
