use vstd::prelude::*;
use vstd::arithmetic::div_mod::lemma_fundamental_div_mod_converse;
use super::module::{ControlFlow, DataOps, Graphics, Input, Instruction, MemoryOps, Timers};

verus! {

/// The four hexadecimal digits of an opcode, most significant first.
pub open spec fn nibbles(opcode: u16) -> (u8, u8, u8, u8) {
    (
        (opcode / 4096) as u8,
        ((opcode / 256) % 16) as u8,
        ((opcode / 16) % 16) as u8,
        (opcode % 16) as u8,
    )
}

/// The instruction that an opcode stands for: its first digit selects the
/// group, the others select the operation and give the register numbers
/// `x` (second digit) and `y` (third digit), the byte `kk` (low byte), the
/// address `nnn` (low twelve bits) or the row count `n` (last digit).
pub open spec fn decode_spec(opcode: u16) -> Instruction {
    let nnn = opcode % 4096;
    let kk = (opcode % 256) as u8;
    match nibbles(opcode) {
        (0x0, 0x0, 0xE, 0x0) => Instruction::Graphics(Graphics::Clear),
        (0x0, 0x0, 0xE, 0xE) => Instruction::Control(ControlFlow::Return),
        (0x1, _, _, _) => Instruction::Control(ControlFlow::Jump { nnn }),
        (0x2, _, _, _) => Instruction::Control(ControlFlow::Call { nnn }),
        (0x3, x, _, _) => Instruction::Control(ControlFlow::SkipIfEq { vx: x, kk }),
        (0x4, x, _, _) => Instruction::Control(ControlFlow::SkipIfNotEq { vx: x, kk }),
        (0x5, x, y, 0x0) => Instruction::Control(ControlFlow::SkipIfRegEq { vx: x, vy: y }),
        (0x6, x, _, _) => Instruction::Data(DataOps::LoadImm { vx: x, kk }),
        (0x7, x, _, _) => Instruction::Data(DataOps::AddImm { vx: x, kk }),
        (0x8, x, y, 0x0) => Instruction::Data(DataOps::Mov { vx: x, vy: y }),
        (0x8, x, y, 0x1) => Instruction::Data(DataOps::Or { vx: x, vy: y }),
        (0x8, x, y, 0x2) => Instruction::Data(DataOps::And { vx: x, vy: y }),
        (0x8, x, y, 0x3) => Instruction::Data(DataOps::Xor { vx: x, vy: y }),
        (0x8, x, y, 0x4) => Instruction::Data(DataOps::Add { vx: x, vy: y }),
        (0x8, x, y, 0x5) => Instruction::Data(DataOps::Sub { vx: x, vy: y }),
        (0x8, x, _, 0x6) => Instruction::Data(DataOps::Shr { vx: x }),
        (0x8, x, y, 0x7) => Instruction::Data(DataOps::Subn { vx: x, vy: y }),
        (0x8, x, _, 0xE) => Instruction::Data(DataOps::Shl { vx: x }),
        (0x9, x, y, 0x0) => Instruction::Control(ControlFlow::SkipIfRegNeq { vx: x, vy: y }),
        (0xA, _, _, _) => Instruction::Memory(MemoryOps::SetI { nnn }),
        (0xB, _, _, _) => Instruction::Control(ControlFlow::JumpReg { nnn }),
        (0xC, x, _, _) => Instruction::Data(DataOps::Rand { vx: x, kk }),
        (0xD, x, y, n) => Instruction::Graphics(Graphics::Draw { vx: x, vy: y, n }),
        (0xE, x, 0x9, 0xE) => Instruction::Input(Input::SkipPressed { vx: x }),
        (0xE, x, 0xA, 0x1) => Instruction::Input(Input::SkipNotPressed { vx: x }),
        (0xF, x, 0x0, 0x7) => Instruction::Timers(Timers::GetDelay { vx: x }),
        (0xF, x, 0x0, 0xA) => Instruction::Input(Input::WaitKey { vx: x }),
        (0xF, x, 0x1, 0x5) => Instruction::Timers(Timers::SetDelay { vx: x }),
        (0xF, x, 0x1, 0x8) => Instruction::Timers(Timers::SetSound { vx: x }),
        (0xF, x, 0x1, 0xE) => Instruction::Memory(MemoryOps::AddI { vx: x }),
        (0xF, x, 0x2, 0x9) => Instruction::Memory(MemoryOps::LoadSprite { vx: x }),
        (0xF, x, 0x3, 0x3) => Instruction::Memory(MemoryOps::StoreBcd { vx: x }),
        (0xF, x, 0x5, 0x5) => Instruction::Memory(MemoryOps::StoreRegs { vx: x }),
        (0xF, x, 0x6, 0x5) => Instruction::Memory(MemoryOps::ReadRegs { vx: x }),
        _ => Instruction::Unknown(opcode),
    }
}

/// The opcode of an instruction: the inverse of decoding. Register numbers
/// go in the second and third digits, `kk` in the low byte, `nnn` in the low
/// twelve bits; the shifts are encoded with a zero third digit.
pub open spec fn encode(i: Instruction) -> u16 {
    match i {
        Instruction::Graphics(Graphics::Clear) => 0x00E0,
        Instruction::Control(ControlFlow::Return) => 0x00EE,
        Instruction::Control(ControlFlow::Jump { nnn }) => (0x1000 + nnn) as u16,
        Instruction::Control(ControlFlow::Call { nnn }) => (0x2000 + nnn) as u16,
        Instruction::Control(ControlFlow::SkipIfEq { vx, kk }) => (0x3000 + vx * 256 + kk) as u16,
        Instruction::Control(ControlFlow::SkipIfNotEq { vx, kk }) => (0x4000 + vx * 256
            + kk) as u16,
        Instruction::Control(ControlFlow::SkipIfRegEq { vx, vy }) => (0x5000 + vx * 256 + vy
            * 16) as u16,
        Instruction::Data(DataOps::LoadImm { vx, kk }) => (0x6000 + vx * 256 + kk) as u16,
        Instruction::Data(DataOps::AddImm { vx, kk }) => (0x7000 + vx * 256 + kk) as u16,
        Instruction::Data(DataOps::Mov { vx, vy }) => (0x8000 + vx * 256 + vy * 16) as u16,
        Instruction::Data(DataOps::Or { vx, vy }) => (0x8001 + vx * 256 + vy * 16) as u16,
        Instruction::Data(DataOps::And { vx, vy }) => (0x8002 + vx * 256 + vy * 16) as u16,
        Instruction::Data(DataOps::Xor { vx, vy }) => (0x8003 + vx * 256 + vy * 16) as u16,
        Instruction::Data(DataOps::Add { vx, vy }) => (0x8004 + vx * 256 + vy * 16) as u16,
        Instruction::Data(DataOps::Sub { vx, vy }) => (0x8005 + vx * 256 + vy * 16) as u16,
        Instruction::Data(DataOps::Shr { vx }) => (0x8006 + vx * 256) as u16,
        Instruction::Data(DataOps::Subn { vx, vy }) => (0x8007 + vx * 256 + vy * 16) as u16,
        Instruction::Data(DataOps::Shl { vx }) => (0x800E + vx * 256) as u16,
        Instruction::Control(ControlFlow::SkipIfRegNeq { vx, vy }) => (0x9000 + vx * 256 + vy
            * 16) as u16,
        Instruction::Memory(MemoryOps::SetI { nnn }) => (0xA000 + nnn) as u16,
        Instruction::Control(ControlFlow::JumpReg { nnn }) => (0xB000 + nnn) as u16,
        Instruction::Data(DataOps::Rand { vx, kk }) => (0xC000 + vx * 256 + kk) as u16,
        Instruction::Graphics(Graphics::Draw { vx, vy, n }) => (0xD000 + vx * 256 + vy * 16
            + n) as u16,
        Instruction::Input(Input::SkipPressed { vx }) => (0xE09E + vx * 256) as u16,
        Instruction::Input(Input::SkipNotPressed { vx }) => (0xE0A1 + vx * 256) as u16,
        Instruction::Timers(Timers::GetDelay { vx }) => (0xF007 + vx * 256) as u16,
        Instruction::Input(Input::WaitKey { vx }) => (0xF00A + vx * 256) as u16,
        Instruction::Timers(Timers::SetDelay { vx }) => (0xF015 + vx * 256) as u16,
        Instruction::Timers(Timers::SetSound { vx }) => (0xF018 + vx * 256) as u16,
        Instruction::Memory(MemoryOps::AddI { vx }) => (0xF01E + vx * 256) as u16,
        Instruction::Memory(MemoryOps::LoadSprite { vx }) => (0xF029 + vx * 256) as u16,
        Instruction::Memory(MemoryOps::StoreBcd { vx }) => (0xF033 + vx * 256) as u16,
        Instruction::Memory(MemoryOps::StoreRegs { vx }) => (0xF055 + vx * 256) as u16,
        Instruction::Memory(MemoryOps::ReadRegs { vx }) => (0xF065 + vx * 256) as u16,
        Instruction::Unknown(op) => op,
    }
}

/// Whether an instruction has an opcode: its register numbers and row count
/// fit in one hexadecimal digit and its address in twelve bits; an
/// `Unknown` instruction must hold an opcode that no instruction matches.
pub open spec fn encodable(i: Instruction) -> bool {
    match i {
        Instruction::Control(op) => match op {
            ControlFlow::Return => true,
            ControlFlow::Jump { nnn } => nnn < 0x1000,
            ControlFlow::Call { nnn } => nnn < 0x1000,
            ControlFlow::SkipIfEq { vx, .. } => vx < 16,
            ControlFlow::SkipIfNotEq { vx, .. } => vx < 16,
            ControlFlow::SkipIfRegEq { vx, vy } => vx < 16 && vy < 16,
            ControlFlow::SkipIfRegNeq { vx, vy } => vx < 16 && vy < 16,
            ControlFlow::JumpReg { nnn } => nnn < 0x1000,
        },
        Instruction::Data(op) => match op {
            DataOps::LoadImm { vx, .. } => vx < 16,
            DataOps::Mov { vx, vy } => vx < 16 && vy < 16,
            DataOps::AddImm { vx, .. } => vx < 16,
            DataOps::Add { vx, vy } => vx < 16 && vy < 16,
            DataOps::Sub { vx, vy } => vx < 16 && vy < 16,
            DataOps::Subn { vx, vy } => vx < 16 && vy < 16,
            DataOps::Or { vx, vy } => vx < 16 && vy < 16,
            DataOps::And { vx, vy } => vx < 16 && vy < 16,
            DataOps::Xor { vx, vy } => vx < 16 && vy < 16,
            DataOps::Shr { vx } => vx < 16,
            DataOps::Shl { vx } => vx < 16,
            DataOps::Rand { vx, .. } => vx < 16,
        },
        Instruction::Memory(op) => match op {
            MemoryOps::SetI { nnn } => nnn < 0x1000,
            MemoryOps::AddI { vx } => vx < 16,
            MemoryOps::LoadSprite { vx } => vx < 16,
            MemoryOps::StoreBcd { vx } => vx < 16,
            MemoryOps::StoreRegs { vx } => vx < 16,
            MemoryOps::ReadRegs { vx } => vx < 16,
        },
        Instruction::Graphics(op) => match op {
            Graphics::Clear => true,
            Graphics::Draw { vx, vy, n } => vx < 16 && vy < 16 && n < 16,
        },
        Instruction::Input(op) => match op {
            Input::SkipPressed { vx } => vx < 16,
            Input::SkipNotPressed { vx } => vx < 16,
            Input::WaitKey { vx } => vx < 16,
        },
        Instruction::Timers(op) => match op {
            Timers::GetDelay { vx } => vx < 16,
            Timers::SetDelay { vx } => vx < 16,
            Timers::SetSound { vx } => vx < 16,
        },
        Instruction::Unknown(op) => decode_spec(op) == Instruction::Unknown(op),
    }
}

/// An opcode written with its four hexadecimal digits has those digits,
/// its low twelve bits and its low byte.
proof fn lemma_digits(op: u16, a: int, b: int, c: int, d: int)
    requires
        0 <= a < 16,
        0 <= b < 16,
        0 <= c < 16,
        0 <= d < 16,
        op == a * 4096 + b * 256 + c * 16 + d,
    ensures
        nibbles(op) == (a as u8, b as u8, c as u8, d as u8),
        op % 4096 == b * 256 + c * 16 + d,
        op % 256 == c * 16 + d,
{
    let x = op as int;
    lemma_fundamental_div_mod_converse(x, 4096, a, b * 256 + c * 16 + d);
    lemma_fundamental_div_mod_converse(x, 256, a * 16 + b, c * 16 + d);
    lemma_fundamental_div_mod_converse(a * 16 + b, 16, a, b);
    lemma_fundamental_div_mod_converse(x, 16, a * 256 + b * 16 + c, d);
    lemma_fundamental_div_mod_converse(a * 256 + b * 16 + c, 16, a * 16 + b, c);
}

/// An opcode made of the digit `a` and a twelve-bit address.
proof fn lemma_digits_addr(op: u16, a: int, nnn: u16)
    requires
        0 <= a < 16,
        nnn < 4096,
        op == a * 4096 + nnn,
    ensures
        nibbles(op) == (a as u8, (nnn / 256) as u8, ((nnn / 16) % 16) as u8, (nnn % 16) as u8),
        op % 4096 == nnn,
        op % 256 == nnn % 256,
{
    lemma_low12(nnn);
    lemma_digits(op, a, nnn as int / 256, (nnn as int / 16) % 16, nnn as int % 16);
}

/// An opcode made of the digit `a`, a register number and a byte.
proof fn lemma_digits_byte(op: u16, a: int, vx: u8, kk: u8)
    requires
        0 <= a < 16,
        vx < 16,
        op == a * 4096 + vx * 256 + kk,
    ensures
        nibbles(op) == (a as u8, vx, kk / 16, kk % 16),
        op % 4096 == vx * 256 + kk,
        op % 256 == kk,
{
    lemma_low8(kk);
    lemma_digits(op, a, vx as int, kk as int / 16, kk as int % 16);
}

/// A twelve-bit address put back together from its three digits.
proof fn lemma_low12(nnn: u16)
    requires
        nnn < 4096,
    ensures
        nnn == (nnn / 256) * 256 + ((nnn / 16) % 16) * 16 + nnn % 16,
        nnn / 256 < 16,
{
}

/// A byte put back together from its two digits.
proof fn lemma_low8(kk: u8)
    ensures
        kk == (kk / 16) * 16 + kk % 16,
        kk / 16 < 16,
{
}

/// The digits of an opcode put it back together.
proof fn lemma_split(op: u16)
    ensures
        op == (op / 4096) * 4096 + ((op / 256) % 16) * 256 + ((op / 16) % 16) * 16 + op % 16,
        op % 4096 == ((op / 256) % 16) * 256 + ((op / 16) % 16) * 16 + op % 16,
        op % 256 == ((op / 16) % 16) * 16 + op % 16,
        op / 4096 < 16,
{
}

/// `lemma_decode_encode` for the screen instructions.
proof fn lemma_decode_encode_graphics(i: Instruction)
    requires
        encodable(i),
        i is Graphics,
    ensures
        decode_spec(encode(i)) == i,
{
    match i {
        Instruction::Graphics(Graphics::Clear) => lemma_digits(encode(i), 0, 0, 14, 0),
        Instruction::Graphics(Graphics::Draw { vx, vy, n }) => {
            lemma_digits(encode(i), 13, vx as int, vy as int, n as int);
        },
        _ => {},
    }
}

/// `lemma_decode_encode` for the control-flow instructions.
proof fn lemma_decode_encode_control(i: Instruction)
    requires
        encodable(i),
        i is Control,
    ensures
        decode_spec(encode(i)) == i,
{
    match i {
        Instruction::Control(ControlFlow::Return) => lemma_digits(encode(i), 0, 0, 14, 14),
        Instruction::Control(ControlFlow::Jump { nnn }) => lemma_digits_addr(encode(i), 1, nnn),
        Instruction::Control(ControlFlow::Call { nnn }) => lemma_digits_addr(encode(i), 2, nnn),
        Instruction::Control(ControlFlow::SkipIfEq { vx, kk }) => {
            lemma_digits_byte(encode(i), 3, vx, kk);
        },
        Instruction::Control(ControlFlow::SkipIfNotEq { vx, kk }) => {
            lemma_digits_byte(encode(i), 4, vx, kk);
        },
        Instruction::Control(ControlFlow::SkipIfRegEq { vx, vy }) => {
            lemma_digits(encode(i), 5, vx as int, vy as int, 0);
        },
        Instruction::Control(ControlFlow::SkipIfRegNeq { vx, vy }) => {
            lemma_digits(encode(i), 9, vx as int, vy as int, 0);
        },
        Instruction::Control(ControlFlow::JumpReg { nnn }) => lemma_digits_addr(encode(i), 11, nnn),
        _ => {},
    }
}

/// `lemma_decode_encode` for the data instructions.
proof fn lemma_decode_encode_data(i: Instruction)
    requires
        encodable(i),
        i is Data,
    ensures
        decode_spec(encode(i)) == i,
{
    match i {
        Instruction::Data(DataOps::LoadImm { vx, kk }) => lemma_digits_byte(encode(i), 6, vx, kk),
        Instruction::Data(DataOps::AddImm { vx, kk }) => lemma_digits_byte(encode(i), 7, vx, kk),
        Instruction::Data(DataOps::Mov { vx, vy }) => {
            lemma_digits(encode(i), 8, vx as int, vy as int, 0);
        },
        Instruction::Data(DataOps::Or { vx, vy }) => {
            lemma_digits(encode(i), 8, vx as int, vy as int, 1);
        },
        Instruction::Data(DataOps::And { vx, vy }) => {
            lemma_digits(encode(i), 8, vx as int, vy as int, 2);
        },
        Instruction::Data(DataOps::Xor { vx, vy }) => {
            lemma_digits(encode(i), 8, vx as int, vy as int, 3);
        },
        Instruction::Data(DataOps::Add { vx, vy }) => {
            lemma_digits(encode(i), 8, vx as int, vy as int, 4);
        },
        Instruction::Data(DataOps::Sub { vx, vy }) => {
            lemma_digits(encode(i), 8, vx as int, vy as int, 5);
        },
        Instruction::Data(DataOps::Shr { vx }) => lemma_digits(encode(i), 8, vx as int, 0, 6),
        Instruction::Data(DataOps::Subn { vx, vy }) => {
            lemma_digits(encode(i), 8, vx as int, vy as int, 7);
        },
        Instruction::Data(DataOps::Shl { vx }) => lemma_digits(encode(i), 8, vx as int, 0, 14),
        Instruction::Data(DataOps::Rand { vx, kk }) => lemma_digits_byte(encode(i), 12, vx, kk),
        _ => {},
    }
}

/// `lemma_decode_encode` for the memory instructions.
proof fn lemma_decode_encode_memory(i: Instruction)
    requires
        encodable(i),
        i is Memory,
    ensures
        decode_spec(encode(i)) == i,
{
    match i {
        Instruction::Memory(MemoryOps::SetI { nnn }) => lemma_digits_addr(encode(i), 10, nnn),
        Instruction::Memory(MemoryOps::AddI { vx }) => {
            lemma_digits(encode(i), 15, vx as int, 1, 14);
        },
        Instruction::Memory(MemoryOps::LoadSprite { vx }) => {
            lemma_digits(encode(i), 15, vx as int, 2, 9);
        },
        Instruction::Memory(MemoryOps::StoreBcd { vx }) => {
            lemma_digits(encode(i), 15, vx as int, 3, 3);
        },
        Instruction::Memory(MemoryOps::StoreRegs { vx }) => {
            lemma_digits(encode(i), 15, vx as int, 5, 5);
        },
        Instruction::Memory(MemoryOps::ReadRegs { vx }) => {
            lemma_digits(encode(i), 15, vx as int, 6, 5);
        },
        _ => {},
    }
}

/// `lemma_decode_encode` for the keypad instructions.
proof fn lemma_decode_encode_input(i: Instruction)
    requires
        encodable(i),
        i is Input,
    ensures
        decode_spec(encode(i)) == i,
{
    match i {
        Instruction::Input(Input::SkipPressed { vx }) => {
            lemma_digits(encode(i), 14, vx as int, 9, 14);
        },
        Instruction::Input(Input::SkipNotPressed { vx }) => {
            lemma_digits(encode(i), 14, vx as int, 10, 1);
        },
        Instruction::Input(Input::WaitKey { vx }) => lemma_digits(encode(i), 15, vx as int, 0, 10),
        _ => {},
    }
}

/// `lemma_decode_encode` for the timer instructions.
proof fn lemma_decode_encode_timers(i: Instruction)
    requires
        encodable(i),
        i is Timers,
    ensures
        decode_spec(encode(i)) == i,
{
    match i {
        Instruction::Timers(Timers::GetDelay { vx }) => {
            lemma_digits(encode(i), 15, vx as int, 0, 7);
        },
        Instruction::Timers(Timers::SetDelay { vx }) => {
            lemma_digits(encode(i), 15, vx as int, 1, 5);
        },
        Instruction::Timers(Timers::SetSound { vx }) => {
            lemma_digits(encode(i), 15, vx as int, 1, 8);
        },
        _ => {},
    }
}

/// Decoding undoes encoding: every instruction that has an opcode is decoded
/// from it.
pub proof fn lemma_decode_encode(i: Instruction)
    requires
        encodable(i),
    ensures
        decode_spec(encode(i)) == i,
{
    match i {
        Instruction::Graphics(_) => lemma_decode_encode_graphics(i),
        Instruction::Control(_) => lemma_decode_encode_control(i),
        Instruction::Data(_) => lemma_decode_encode_data(i),
        Instruction::Memory(_) => lemma_decode_encode_memory(i),
        Instruction::Input(_) => lemma_decode_encode_input(i),
        Instruction::Timers(_) => lemma_decode_encode_timers(i),
        Instruction::Unknown(_) => {},
    }
}

/// Encoding undoes decoding: an opcode is the encoding of the instruction it
/// decodes to, except that the shifts forget their third digit. For an
/// opcode that decodes to a shift, clearing that digit gives the encoding.
pub proof fn lemma_encode_decode(opcode: u16)
    ensures
        encodable(decode_spec(opcode)),
        decode_spec(opcode) is Data && (decode_spec(opcode)->Data_0 is Shr || decode_spec(
            opcode,
        )->Data_0 is Shl) ==> encode(decode_spec(opcode)) == opcode - ((opcode / 16) % 16) * 16,
        !(decode_spec(opcode) is Data && (decode_spec(opcode)->Data_0 is Shr || decode_spec(
            opcode,
        )->Data_0 is Shl)) ==> encode(decode_spec(opcode)) == opcode,
{
    lemma_split(opcode);
}

impl Instruction {
    /// Decodes a 16-bit opcode; an opcode that no instruction matches
    /// becomes `Unknown` with the opcode itself.
    pub fn decode(opcode: u16) -> (r: Self)
        ensures
            r == decode_spec(opcode),
    {
        let a = ((opcode & 0xF000) >> 12) as u8;
        let b = ((opcode & 0x0F00) >> 8) as u8;
        let c = ((opcode & 0x00F0) >> 4) as u8;
        let d = (opcode & 0x000F) as u8;

        let nnn = opcode & 0x0FFF;
        let kk = (opcode & 0x00FF) as u8;
        proof {
            assert((opcode & 0xF000) >> 12 == opcode / 4096) by (bit_vector);
            assert((opcode & 0x0F00) >> 8 == (opcode / 256) % 16) by (bit_vector);
            assert((opcode & 0x00F0) >> 4 == (opcode / 16) % 16) by (bit_vector);
            assert(opcode & 0x000F == opcode % 16) by (bit_vector);
            assert(opcode & 0x0FFF == opcode % 4096) by (bit_vector);
            assert(opcode & 0x00FF == opcode % 256) by (bit_vector);
            assert((a, b, c, d) == nibbles(opcode));
        }

        match (a, b, c, d) {
            (0x0, 0x0, 0xE, 0x0) => Instruction::Graphics(Graphics::Clear),
            (0x0, 0x0, 0xE, 0xE) => Instruction::Control(ControlFlow::Return),
            (0x1, _, _, _) => Instruction::Control(ControlFlow::Jump { nnn }),
            (0x2, _, _, _) => Instruction::Control(ControlFlow::Call { nnn }),
            (0x3, x, _, _) => Instruction::Control(ControlFlow::SkipIfEq { vx: x, kk }),
            (0x4, x, _, _) => Instruction::Control(ControlFlow::SkipIfNotEq { vx: x, kk }),
            (0x5, x, y, 0x0) => Instruction::Control(ControlFlow::SkipIfRegEq { vx: x, vy: y }),
            (0x6, x, _, _) => Instruction::Data(DataOps::LoadImm { vx: x, kk }),
            (0x7, x, _, _) => Instruction::Data(DataOps::AddImm { vx: x, kk }),
            (0x8, x, y, 0x0) => Instruction::Data(DataOps::Mov { vx: x, vy: y }),
            (0x8, x, y, 0x1) => Instruction::Data(DataOps::Or { vx: x, vy: y }),
            (0x8, x, y, 0x2) => Instruction::Data(DataOps::And { vx: x, vy: y }),
            (0x8, x, y, 0x3) => Instruction::Data(DataOps::Xor { vx: x, vy: y }),
            (0x8, x, y, 0x4) => Instruction::Data(DataOps::Add { vx: x, vy: y }),
            (0x8, x, y, 0x5) => Instruction::Data(DataOps::Sub { vx: x, vy: y }),
            (0x8, x, _, 0x6) => Instruction::Data(DataOps::Shr { vx: x }),
            (0x8, x, y, 0x7) => Instruction::Data(DataOps::Subn { vx: x, vy: y }),
            (0x8, x, _, 0xE) => Instruction::Data(DataOps::Shl { vx: x }),
            (0x9, x, y, 0x0) => Instruction::Control(ControlFlow::SkipIfRegNeq { vx: x, vy: y }),
            (0xA, _, _, _) => Instruction::Memory(MemoryOps::SetI { nnn }),
            (0xB, _, _, _) => Instruction::Control(ControlFlow::JumpReg { nnn }),
            (0xC, x, _, _) => Instruction::Data(DataOps::Rand { vx: x, kk }),
            (0xD, x, y, n) => Instruction::Graphics(Graphics::Draw { vx: x, vy: y, n }),
            (0xE, x, 0x9, 0xE) => Instruction::Input(Input::SkipPressed { vx: x }),
            (0xE, x, 0xA, 0x1) => Instruction::Input(Input::SkipNotPressed { vx: x }),
            (0xF, x, 0x0, 0x7) => Instruction::Timers(Timers::GetDelay { vx: x }),
            (0xF, x, 0x0, 0xA) => Instruction::Input(Input::WaitKey { vx: x }),
            (0xF, x, 0x1, 0x5) => Instruction::Timers(Timers::SetDelay { vx: x }),
            (0xF, x, 0x1, 0x8) => Instruction::Timers(Timers::SetSound { vx: x }),
            (0xF, x, 0x1, 0xE) => Instruction::Memory(MemoryOps::AddI { vx: x }),
            (0xF, x, 0x2, 0x9) => Instruction::Memory(MemoryOps::LoadSprite { vx: x }),
            (0xF, x, 0x3, 0x3) => Instruction::Memory(MemoryOps::StoreBcd { vx: x }),
            (0xF, x, 0x5, 0x5) => Instruction::Memory(MemoryOps::StoreRegs { vx: x }),
            (0xF, x, 0x6, 0x5) => Instruction::Memory(MemoryOps::ReadRegs { vx: x }),
            _ => Instruction::Unknown(opcode),
        }
    }
}

} // verus!
