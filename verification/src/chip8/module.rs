use vstd::prelude::*;

verus! {

/// The dialect of the machine an emulator was created for.
#[derive(Debug, Clone, Copy, PartialEq, Eq)]
pub enum Versions {
    CHIP8,
    SuperChip8,
}

/// A decoded instruction, grouped by the part of the machine it works on.
#[derive(Debug, Clone, Copy, PartialEq, Eq)]
pub enum Instruction {
    Control(ControlFlow),
    Data(DataOps),
    Memory(MemoryOps),
    Graphics(Graphics),
    Input(Input),
    Timers(Timers),
    Unknown(u16),
}

/// Control flow: jumps, subroutine calls and conditional skips.
#[derive(Debug, Clone, Copy, PartialEq, Eq)]
pub enum ControlFlow {
    Return,  // 00EE
    Jump { nnn: u16 },  // 1nnn
    Call { nnn: u16 },  // 2nnn
    SkipIfEq { vx: u8, kk: u8 },  // 3xkk
    SkipIfNotEq { vx: u8, kk: u8 },  // 4xkk
    SkipIfRegEq { vx: u8, vy: u8 },  // 5xy0
    SkipIfRegNeq { vx: u8, vy: u8 },  // 9xy0
    JumpReg { nnn: u16 },  // Bnnn
}

/// Register arithmetic, logic, shifts and random numbers.
#[derive(Debug, Clone, Copy, PartialEq, Eq)]
pub enum DataOps {
    LoadImm { vx: u8, kk: u8 },  // 6xkk
    Mov { vx: u8, vy: u8 },  // 8xy0
    AddImm { vx: u8, kk: u8 },  // 7xkk
    Add { vx: u8, vy: u8 },  // 8xy4
    Sub { vx: u8, vy: u8 },  // 8xy5
    Subn { vx: u8, vy: u8 },  // 8xy7
    Or { vx: u8, vy: u8 },  // 8xy1
    And { vx: u8, vy: u8 },  // 8xy2
    Xor { vx: u8, vy: u8 },  // 8xy3
    Shr { vx: u8 },  // 8xy6
    Shl { vx: u8 },  // 8xyE
    Rand { vx: u8, kk: u8 },  // Cxkk
}

/// Memory and index register operations.
#[derive(Debug, Clone, Copy, PartialEq, Eq)]
pub enum MemoryOps {
    SetI { nnn: u16 },  // Annn
    AddI { vx: u8 },  // Fx1E
    LoadSprite { vx: u8 },  // Fx29
    StoreBcd { vx: u8 },  // Fx33
    StoreRegs { vx: u8 },  // Fx55
    ReadRegs { vx: u8 },  // Fx65
}

/// Screen operations.
#[derive(Debug, Clone, Copy, PartialEq, Eq)]
pub enum Graphics {
    Clear,  // 00E0
    Draw { vx: u8, vy: u8, n: u8 },  // Dxyn
}

/// Keypad operations.
#[derive(Debug, Clone, Copy, PartialEq, Eq)]
pub enum Input {
    SkipPressed { vx: u8 },  // Ex9E
    SkipNotPressed { vx: u8 },  // ExA1
    WaitKey { vx: u8 },  // Fx0A
}

/// Delay and sound timer operations.
#[derive(Debug, Clone, Copy, PartialEq, Eq)]
pub enum Timers {
    GetDelay { vx: u8 },  // Fx07
    SetDelay { vx: u8 },  // Fx15
    SetSound { vx: u8 },  // Fx18
}

/// An opcode that no instruction matches.
#[derive(Debug, Clone, Copy, PartialEq, Eq)]
pub enum UnknownOpCode {
    Unknown(u16),
}

} // verus!
