use vstd::prelude::*;
use super::cpu::{tick, with_keys, CpuState, Emulator, Machine};
use super::display::{
    can_draw, dark_screen, draw_collides, drawing_ok, drawn_rows, lemma_draw_twice,
    lemma_draw_twice_collides, sprite_visible, WIDTH,
};
use super::keypad::any_pressed;
use super::memory::{lemma_with_bytes_index, with_bytes, word_at, MEMORY_SIZE, PROGRAM_START};
use super::module::{
    ControlFlow, DataOps, Graphics, Input, Instruction, MemoryOps, Timers, Versions,
};
use super::opcode::decode_spec;

verus! {

/// The flag register `VF`.
pub const FLAG: usize = 0xF;

/// `c` with register `Vx` set to `value`.
pub open spec fn set_reg(c: CpuState, x: int, value: u8) -> CpuState {
    CpuState { v: c.v.update(x, value), ..c }
}

/// `c` with register `Vx` set to `value` and then `VF` set to `flag`.
pub open spec fn set_reg_flag(c: CpuState, x: int, value: u8, flag: u8) -> CpuState {
    set_reg(set_reg(c, x, value), FLAG as int, flag)
}

/// `c` with the program counter moved past one instruction when `cond` holds.
pub open spec fn skip_if(c: CpuState, cond: bool) -> CpuState {
    if cond {
        CpuState { pc: (c.pc + 2) as u16, ..c }
    } else {
        c
    }
}

/// Whether skipping an instruction when `cond` holds keeps the program
/// counter in range.
pub open spec fn skip_ok(c: CpuState, cond: bool) -> bool {
    cond ==> c.pc + 2 <= u16::MAX
}

/// Whether a control-flow instruction can run: a return needs an address on
/// the stack, a call a free slot, registers must exist, and the program
/// counter must stay in range.
pub open spec fn control_ok(c: CpuState, op: ControlFlow) -> bool {
    match op {
        ControlFlow::Return => c.sp > 0,
        ControlFlow::Jump { .. } => true,
        ControlFlow::Call { .. } => c.sp < 16,
        ControlFlow::SkipIfEq { vx, kk } => vx < 16 && skip_ok(c, c.v[vx as int] == kk),
        ControlFlow::SkipIfNotEq { vx, kk } => vx < 16 && skip_ok(c, c.v[vx as int] != kk),
        ControlFlow::SkipIfRegEq { vx, vy } => vx < 16 && vy < 16 && skip_ok(
            c,
            c.v[vx as int] == c.v[vy as int],
        ),
        ControlFlow::SkipIfRegNeq { vx, vy } => vx < 16 && vy < 16 && skip_ok(
            c,
            c.v[vx as int] != c.v[vy as int],
        ),
        ControlFlow::JumpReg { nnn } => nnn + c.v[0] <= u16::MAX,
    }
}

/// The processor after a control-flow instruction.
pub open spec fn control_next(c: CpuState, op: ControlFlow) -> CpuState {
    match op {
        ControlFlow::Return => CpuState { pc: c.stack[c.sp - 1], sp: (c.sp - 1) as nat, ..c },
        ControlFlow::Jump { nnn } => CpuState { pc: nnn, ..c },
        ControlFlow::Call { nnn } => CpuState {
            stack: c.stack.update(c.sp as int, c.pc),
            sp: c.sp + 1,
            pc: nnn,
            ..c
        },
        ControlFlow::SkipIfEq { vx, kk } => skip_if(c, c.v[vx as int] == kk),
        ControlFlow::SkipIfNotEq { vx, kk } => skip_if(c, c.v[vx as int] != kk),
        ControlFlow::SkipIfRegEq { vx, vy } => skip_if(c, c.v[vx as int] == c.v[vy as int]),
        ControlFlow::SkipIfRegNeq { vx, vy } => skip_if(c, c.v[vx as int] != c.v[vy as int]),
        ControlFlow::JumpReg { nnn } => CpuState { pc: (nnn + c.v[0]) as u16, ..c },
    }
}

/// Whether a data instruction can run: the registers it names exist.
pub open spec fn data_ok(op: DataOps) -> bool {
    match op {
        DataOps::LoadImm { vx, .. } => vx < 16,
        DataOps::Mov { vx, vy } => vx < 16 && vy < 16,
        DataOps::AddImm { vx, .. } => vx < 16,
        DataOps::Add { vx, vy } => vx < 16 && vy < 16,
        DataOps::Sub { vx, vy } => vx < 16 && vy < 16,
        DataOps::Subn { vx, vy } => vx < 16 && vy < 16,
        DataOps::Or { vx, vy } => vx < 16 && vy < 16,
        DataOps::And { vx, vy } => vx < 16 && vy < 16,
        DataOps::Xor { vx, vy } => vx < 16 && vy < 16,
        DataOps::Shr { vx } => vx < 16,
        DataOps::Shl { vx } => vx < 16,
        DataOps::Rand { vx, .. } => vx < 16,
    }
}

/// The processor after a data instruction; `rnd` is the random byte that a
/// `Rand` instruction masks.
///
/// Arithmetic wraps modulo 256. `Add` sets `VF` to the carry, `Sub` and
/// `Subn` to "no borrow", the shifts to the bit shifted out; `VF` is written
/// after `Vx`.
pub open spec fn data_next(c: CpuState, op: DataOps, rnd: u8) -> CpuState {
    match op {
        DataOps::LoadImm { vx, kk } => set_reg(c, vx as int, kk),
        DataOps::Mov { vx, vy } => set_reg(c, vx as int, c.v[vy as int]),
        DataOps::AddImm { vx, kk } => set_reg(c, vx as int, ((c.v[vx as int] + kk) % 256) as u8),
        DataOps::Add { vx, vy } => {
            let sum = c.v[vx as int] + c.v[vy as int];
            set_reg_flag(
                c,
                vx as int,
                (sum % 256) as u8,
                if sum > 255 {
                    1
                } else {
                    0
                },
            )
        },
        DataOps::Sub { vx, vy } => {
            let a = c.v[vx as int];
            let b = c.v[vy as int];
            set_reg_flag(
                c,
                vx as int,
                ((a - b) % 256) as u8,
                if a >= b {
                    1
                } else {
                    0
                },
            )
        },
        DataOps::Subn { vx, vy } => {
            let a = c.v[vx as int];
            let b = c.v[vy as int];
            set_reg_flag(
                c,
                vx as int,
                ((b - a) % 256) as u8,
                if b >= a {
                    1
                } else {
                    0
                },
            )
        },
        DataOps::Or { vx, vy } => set_reg(c, vx as int, c.v[vx as int] | c.v[vy as int]),
        DataOps::And { vx, vy } => set_reg(c, vx as int, c.v[vx as int] & c.v[vy as int]),
        DataOps::Xor { vx, vy } => set_reg(c, vx as int, c.v[vx as int] ^ c.v[vy as int]),
        DataOps::Shr { vx } => {
            let a = c.v[vx as int];
            set_reg_flag(c, vx as int, a / 2, a % 2)
        },
        DataOps::Shl { vx } => {
            let a = c.v[vx as int];
            set_reg_flag(c, vx as int, ((a * 2) % 256) as u8, a / 128)
        },
        DataOps::Rand { vx, kk } => set_reg(c, vx as int, rnd & kk),
    }
}

/// Whether a memory instruction can run: registers exist, `I` stays in range
/// and every byte it touches is in memory.
pub open spec fn memory_ok(s: Machine, op: MemoryOps) -> bool {
    let c = s.cpu;
    match op {
        MemoryOps::SetI { .. } => true,
        MemoryOps::AddI { vx } => vx < 16 && c.i + c.v[vx as int] <= u16::MAX,
        MemoryOps::LoadSprite { vx } => vx < 16,
        MemoryOps::StoreBcd { vx } => vx < 16 && c.i + 2 < MEMORY_SIZE,
        MemoryOps::StoreRegs { vx } => vx < 16 && c.i + vx < MEMORY_SIZE,
        MemoryOps::ReadRegs { vx } => vx < 16 && c.i + vx < MEMORY_SIZE,
    }
}

/// The machine after a memory instruction. `LoadSprite` points `I` at the
/// font glyph of `Vx` (five bytes per glyph); `StoreBcd` stores the hundreds,
/// tens and units of `Vx` at `I`, `I + 1`, `I + 2`; `StoreRegs` and
/// `ReadRegs` copy `V0..=Vx` to and from memory at `I`.
pub open spec fn memory_next(s: Machine, op: MemoryOps) -> Machine {
    let c = s.cpu;
    match op {
        MemoryOps::SetI { nnn } => Machine { cpu: CpuState { i: nnn, ..c }, ..s },
        MemoryOps::AddI { vx } => Machine {
            cpu: CpuState { i: (c.i + c.v[vx as int]) as u16, ..c },
            ..s
        },
        MemoryOps::LoadSprite { vx } => Machine {
            cpu: CpuState { i: (c.v[vx as int] * 5) as u16, ..c },
            ..s
        },
        MemoryOps::StoreBcd { vx } => {
            let value = c.v[vx as int];
            Machine {
                mem: s.mem.update(c.i as int, value / 100).update(
                    c.i + 1,
                    (value / 10) % 10,
                ).update(c.i + 2, value % 10),
                ..s
            }
        },
        MemoryOps::StoreRegs { vx } => Machine {
            mem: with_bytes(s.mem, c.i as int, c.v.take(vx + 1)),
            ..s
        },
        MemoryOps::ReadRegs { vx } => Machine {
            cpu: CpuState {
                v: s.mem.subrange(c.i as int, c.i + vx + 1) + c.v.skip(vx + 1),
                ..c
            },
            ..s
        },
    }
}

/// Whether a screen instruction can run: registers exist, the sprite is in
/// memory and can be placed at the column held in `Vx`.
pub open spec fn graphics_ok(s: Machine, op: Graphics) -> bool {
    let c = s.cpu;
    match op {
        Graphics::Clear => true,
        Graphics::Draw { vx, vy, n } => {
            &&& vx < 16
            &&& vy < 16
            &&& c.i + n <= MEMORY_SIZE
            &&& drawing_ok(n as nat, c.v[vx as int] as usize, c.v[vy as int] as usize)
        },
    }
}

/// The machine after a screen instruction: `Clear` darkens the screen;
/// `Draw` XORs the `n` sprite bytes at `I` onto the screen at `(Vx, Vy)` and
/// sets `VF` to 1 when a lit pixel was turned off, else to 0.
pub open spec fn graphics_next(s: Machine, op: Graphics) -> Machine {
    let c = s.cpu;
    match op {
        Graphics::Clear => Machine { screen: dark_screen(), ..s },
        Graphics::Draw { vx, vy, n } => {
            let sprite = s.mem.subrange(c.i as int, c.i + n);
            let x = c.v[vx as int] as usize;
            let y = c.v[vy as int] as usize;
            Machine {
                screen: drawn_rows(s.screen, sprite, x, y),
                cpu: set_reg(
                    c,
                    FLAG as int,
                    if draw_collides(s.screen, sprite, x, y) {
                        1
                    } else {
                        0
                    },
                ),
                ..s
            }
        },
    }
}

/// Whether a keypad instruction can run: the register exists and names one
/// of the sixteen keys, and the program counter stays in range.
pub open spec fn input_ok(s: Machine, op: Input) -> bool {
    let c = s.cpu;
    match op {
        Input::SkipPressed { vx } => vx < 16 && c.v[vx as int] < 16 && skip_ok(
            c,
            s.keys[c.v[vx as int] as int],
        ),
        Input::SkipNotPressed { vx } => vx < 16 && c.v[vx as int] < 16 && skip_ok(
            c,
            !s.keys[c.v[vx as int] as int],
        ),
        Input::WaitKey { vx } => if any_pressed(s.keys) {
            vx < 16
        } else {
            c.pc >= 2
        },
    }
}

/// The processor after a keypad instruction. `WaitKey` stores the last
/// pressed key in `Vx` while any key is down, and otherwise moves the program
/// counter back onto itself so that it runs again.
pub open spec fn input_next(s: Machine, op: Input) -> CpuState {
    let c = s.cpu;
    match op {
        Input::SkipPressed { vx } => skip_if(c, s.keys[c.v[vx as int] as int]),
        Input::SkipNotPressed { vx } => skip_if(c, !s.keys[c.v[vx as int] as int]),
        Input::WaitKey { vx } => if any_pressed(s.keys) {
            set_reg(c, vx as int, s.last_key->0)
        } else {
            CpuState { pc: (c.pc - 2) as u16, ..c }
        },
    }
}

/// Whether a timer instruction can run: the register exists.
pub open spec fn timers_ok(op: Timers) -> bool {
    match op {
        Timers::GetDelay { vx } => vx < 16,
        Timers::SetDelay { vx } => vx < 16,
        Timers::SetSound { vx } => vx < 16,
    }
}

/// The processor after a timer instruction.
pub open spec fn timers_next(c: CpuState, op: Timers) -> CpuState {
    match op {
        Timers::GetDelay { vx } => set_reg(c, vx as int, c.delay),
        Timers::SetDelay { vx } => CpuState { delay: c.v[vx as int], ..c },
        Timers::SetSound { vx } => CpuState { sound: c.v[vx as int], ..c },
    }
}

/// Whether an instruction can run on `s`.
pub open spec fn execute_ok(s: Machine, instruction: Instruction) -> bool {
    match instruction {
        Instruction::Control(op) => control_ok(s.cpu, op),
        Instruction::Data(op) => data_ok(op),
        Instruction::Memory(op) => memory_ok(s, op),
        Instruction::Graphics(op) => graphics_ok(s, op),
        Instruction::Input(op) => input_ok(s, op),
        Instruction::Timers(op) => timers_ok(op),
        Instruction::Unknown(_) => true,
    }
}

/// The machine after an instruction; `rnd` is the random byte a `Rand`
/// instruction uses. An unknown instruction changes nothing.
pub open spec fn execute_next(s: Machine, instruction: Instruction, rnd: u8) -> Machine {
    match instruction {
        Instruction::Control(op) => Machine { cpu: control_next(s.cpu, op), ..s },
        Instruction::Data(op) => Machine { cpu: data_next(s.cpu, op, rnd), ..s },
        Instruction::Memory(op) => memory_next(s, op),
        Instruction::Graphics(op) => graphics_next(s, op),
        Instruction::Input(op) => Machine { cpu: input_next(s, op), ..s },
        Instruction::Timers(op) => Machine { cpu: timers_next(s.cpu, op), ..s },
        Instruction::Unknown(_) => s,
    }
}

/// The opcode at the program counter.
pub open spec fn fetch(s: Machine) -> u16 {
    word_at(s.mem, s.cpu.pc as int)
}

/// `s` with the program counter set to `pc`.
pub open spec fn with_pc(s: Machine, pc: u16) -> Machine {
    Machine { cpu: CpuState { pc, ..s.cpu }, ..s }
}

/// `s` with the program counter moved past the fetched opcode.
pub open spec fn advanced(s: Machine) -> Machine {
    with_pc(s, (s.cpu.pc + 2) as u16)
}

/// Whether one fetch-decode-execute cycle can run: the opcode lies in memory
/// and its instruction can run once the program counter has moved past it.
pub open spec fn cycle_ok(s: Machine) -> bool {
    s.cpu.pc + 1 < MEMORY_SIZE && execute_ok(advanced(s), decode_spec(fetch(s)))
}

/// The machine after one fetch-decode-execute cycle.
pub open spec fn cycle_next(s: Machine, rnd: u8) -> Machine {
    execute_next(advanced(s), decode_spec(fetch(s)), rnd)
}

proof fn lemma_sub_byte(x: u16, y: u16, w: u16)
    requires
        x < 256,
        y < 256,
        w == (if x >= y {
            x - y
        } else {
            x - y + 65536
        }),
    ensures
        w as u8 == ((x - y) % 256) as u8,
{
    assert(w as u8 == (w % 256) as u8) by (bit_vector);
    assert(w % 256 == (x - y) % 256);
}

/// Cycles run in one frame.
pub const CYCLES_PER_FRAME: usize = 10;

/// `s` after one tick of both timers.
pub open spec fn timers_ticked(s: Machine) -> Machine {
    Machine { cpu: CpuState { delay: tick(s.cpu.delay), sound: tick(s.cpu.sound), ..s.cpu }, ..s }
}

/// The machine after as many cycles as `rnds` has bytes, cycle `k` using
/// `rnds[k]` as its random byte.
pub open spec fn run_cycles(s: Machine, rnds: Seq<u8>) -> Machine
    decreases rnds.len(),
{
    if rnds.len() == 0 {
        s
    } else {
        cycle_next(run_cycles(s, rnds.drop_last()), rnds.last())
    }
}

/// The opcodes that no instruction matches, in the order those cycles fetch
/// them.
pub open spec fn unknown_opcodes(s: Machine, rnds: Seq<u8>) -> Seq<u16>
    decreases rnds.len(),
{
    if rnds.len() == 0 {
        Seq::empty()
    } else {
        let before = run_cycles(s, rnds.drop_last());
        let earlier = unknown_opcodes(s, rnds.drop_last());
        if decode_spec(fetch(before)) is Unknown {
            earlier.push(fetch(before))
        } else {
            earlier
        }
    }
}

/// Whether each of those cycles can run on the machine it meets.
pub open spec fn cycles_ok(s: Machine, rnds: Seq<u8>) -> bool {
    forall|k: int| 0 <= k < rnds.len() ==> cycle_ok(#[trigger] run_cycles(s, rnds.take(k)))
}

/// Whether running the instruction needs a random byte (`Rand`).
pub open spec fn needs_random(instruction: Instruction) -> bool {
    instruction is Data && instruction->Data_0 is Rand
}

/// One byte from the operating system's generator: `RngCore::try_fill_bytes`
/// of `rand::rngs::OsRng` on a one-byte buffer. `Some` of the byte when the
/// generator filled it, `None` when it reported an error. Nothing is claimed
/// of the byte, nor of when an error comes.
#[verifier::external_body]
fn random_byte() -> (r: Option<u8>) {
    let mut buf = [0u8; 1];
    match rand::RngCore::try_fill_bytes(&mut rand::rngs::OsRng, &mut buf) {
        Ok(()) => Some(buf[0]),
        Err(_) => None,
    }
}

impl Emulator {
    /// Fetches the opcode at the program counter, moves the program counter
    /// past it, decodes it and executes the instruction, and tells whether
    /// the cycle ran. It does not run only when a `Rand` instruction gets no
    /// random byte; the machine is then left exactly as it was.
    pub fn cycle(&mut self) -> (ran: bool)
        requires
            old(self).wf(),
            cycle_ok(old(self)@),
        ensures
            final(self).wf(),
            ran ==> exists|rnd: u8| final(self)@ == #[trigger] cycle_next(old(self)@, rnd),
            !ran ==> needs_random(decode_spec(fetch(old(self)@))) && final(self)@ == old(self)@,
    {
        let pc = self.cpu.get_pc();
        let opcode = self.memory.read_word(pc as usize);
        self.cpu.skip();
        let instruction = Instruction::decode(opcode);
        assert(self@ == advanced(old(self)@));
        let ran = self.execute(instruction);
        if ran {
            let ghost rnd = choose|rnd: u8|
                self@ == #[trigger] execute_next(
                    advanced(old(self)@),
                    decode_spec(fetch(old(self)@)),
                    rnd,
                );
            assert(self@ == cycle_next(old(self)@, rnd));
        } else {
            self.cpu.set_pc(pc);
            assert(self@ == old(self)@);
        }
        ran
    }

    /// One tick of the delay and sound timers.
    pub fn decrement_timers(&mut self)
        requires
            old(self).wf(),
        ensures
            final(self).wf(),
            final(self)@ == timers_ticked(old(self)@),
    {
        self.cpu.decrement_timers();
    }

    /// One frame of the machine: holds down exactly the keys that `down`
    /// marks (see `set_keys`), runs up to `CYCLES_PER_FRAME` cycles, and ticks
    /// the timers once. It gives how many cycles ran, and the opcodes met on
    /// the way that no instruction matches, in order. Fewer cycles run only
    /// when the next one cannot run, or is a `Rand` instruction that got no
    /// random byte.
    pub fn run_frame(&mut self, down: [bool; 16]) -> (r: (usize, Vec<u16>))
        requires
            old(self).wf(),
        ensures
            final(self).wf(),
            r.0 <= CYCLES_PER_FRAME,
            exists|rnds: Seq<u8>|
                #![trigger run_cycles(with_keys(old(self)@, down@), rnds)]
                {
                    let start = with_keys(old(self)@, down@);
                    let reached = run_cycles(start, rnds);
                    &&& rnds.len() == r.0
                    &&& cycles_ok(start, rnds)
                    &&& final(self)@ == timers_ticked(reached)
                    &&& r.1@ == unknown_opcodes(start, rnds)
                    &&& r.0 < CYCLES_PER_FRAME ==> !cycle_ok(reached) || needs_random(
                        decode_spec(fetch(reached)),
                    )
                },
    {
        self.set_keys(down);
        let ghost start = self@;
        let ghost mut rnds: Seq<u8> = Seq::empty();
        let mut ran: usize = 0;
        let mut unknown: Vec<u16> = Vec::new();
        let mut stopped = false;
        while ran < CYCLES_PER_FRAME && !stopped
            invariant
                ran <= CYCLES_PER_FRAME,
                self.wf(),
                start == with_keys(old(self)@, down@),
                rnds.len() == ran,
                cycles_ok(start, rnds),
                self@ == run_cycles(start, rnds),
                unknown@ == unknown_opcodes(start, rnds),
                stopped ==> !cycle_ok(self@) || needs_random(decode_spec(fetch(self@))),
            decreases 2 * (CYCLES_PER_FRAME - ran) + if stopped {
                0int
            } else {
                1int
            },
        {
            if !self.can_cycle() {
                stopped = true;
            } else {
                let ghost before = self@;
                let opcode = self.memory.read_word(self.cpu.get_pc() as usize);
                let decoded = Instruction::decode(opcode);
                if self.cycle() {
                    if let Instruction::Unknown(u) = decoded {
                        unknown.push(u);
                    }
                    proof {
                        let r = choose|r: u8| self@ == #[trigger] cycle_next(before, r);
                        let longer = rnds.push(r);
                        assert(longer.drop_last() =~= rnds);
                        assert forall|k: int| 0 <= k < longer.len() implies cycle_ok(
                            #[trigger] run_cycles(start, longer.take(k)),
                        ) by {
                            if k < rnds.len() {
                                assert(longer.take(k) =~= rnds.take(k));
                                assert(cycle_ok(run_cycles(start, rnds.take(k))));
                            } else {
                                assert(longer.take(k) =~= rnds);
                            }
                        }
                        assert(unknown@ == unknown_opcodes(start, longer));
                        rnds = longer;
                    }
                    ran = ran + 1;
                } else {
                    stopped = true;
                }
            }
        }
        self.decrement_timers();
        assert(self@ == timers_ticked(run_cycles(start, rnds)));
        (ran, unknown)
    }

    /// Executes a decoded instruction; an unknown one changes nothing.
    fn execute(&mut self, instruction: Instruction) -> (ran: bool)
        requires
            old(self).wf(),
            execute_ok(old(self)@, instruction),
        ensures
            final(self).wf(),
            ran ==> exists|rnd: u8|
                final(self)@ == #[trigger] execute_next(old(self)@, instruction, rnd),
            !ran ==> needs_random(instruction) && final(self)@ == old(self)@,
    {
        match instruction {
            Instruction::Control(op) => {
                self.ex_control(op);
                assert(self@ == execute_next(old(self)@, instruction, 0));
            },
            Instruction::Data(op) => {
                if !self.ex_data(op) {
                    return false;
                }
                let ghost rnd = choose|rnd: u8|
                    self@ == (Machine {
                        cpu: #[trigger] data_next(old(self)@.cpu, op, rnd),
                        ..old(self)@
                    });
                assert(self@ == execute_next(old(self)@, instruction, rnd));
            },
            Instruction::Memory(op) => {
                self.ex_memory(op);
                assert(self@ == execute_next(old(self)@, instruction, 0));
            },
            Instruction::Graphics(op) => {
                self.ex_graphics(op);
                assert(self@ == execute_next(old(self)@, instruction, 0));
            },
            Instruction::Input(op) => {
                self.ex_input(op);
                assert(self@ == execute_next(old(self)@, instruction, 0));
            },
            Instruction::Timers(op) => {
                self.ex_timers(op);
                assert(self@ == execute_next(old(self)@, instruction, 0));
            },
            Instruction::Unknown(_) => {
                assert(self@ == execute_next(old(self)@, instruction, 0));
            },
        }
        true
    }

    /// Whether executing `instruction` is possible once the program counter
    /// holds `pc` (see `execute_ok`).
    fn can_execute_at(&self, instruction: Instruction, pc: u16) -> (r: bool)
        requires
            self.wf(),
        ensures
            r == execute_ok(with_pc(self@, pc), instruction),
    {
        match instruction {
            Instruction::Control(op) => match op {
                ControlFlow::Return => self.cpu.stack.depth_now() > 0,
                ControlFlow::Jump { .. } => true,
                ControlFlow::Call { .. } => self.cpu.stack.depth_now() < 16,
                ControlFlow::SkipIfEq { vx, kk } => vx < 16 && (self.cpu.get_v(vx as usize) != kk
                    || pc <= 0xFFFD),
                ControlFlow::SkipIfNotEq { vx, kk } => vx < 16 && (self.cpu.get_v(vx as usize)
                    == kk || pc <= 0xFFFD),
                ControlFlow::SkipIfRegEq { vx, vy } => vx < 16 && vy < 16 && (self.cpu.get_v(
                    vx as usize,
                ) != self.cpu.get_v(vy as usize) || pc <= 0xFFFD),
                ControlFlow::SkipIfRegNeq { vx, vy } => vx < 16 && vy < 16 && (self.cpu.get_v(
                    vx as usize,
                ) == self.cpu.get_v(vy as usize) || pc <= 0xFFFD),
                ControlFlow::JumpReg { nnn } => nnn as u32 + self.cpu.get_v(0) as u32 <= 0xFFFF,
            },
            Instruction::Data(op) => match op {
                DataOps::LoadImm { vx, .. } => vx < 16,
                DataOps::Mov { vx, vy } => vx < 16 && vy < 16,
                DataOps::AddImm { vx, .. } => vx < 16,
                DataOps::Add { vx, vy } => vx < 16 && vy < 16,
                DataOps::Sub { vx, vy } => vx < 16 && vy < 16,
                DataOps::Subn { vx, vy } => vx < 16 && vy < 16,
                DataOps::Or { vx, vy } => vx < 16 && vy < 16,
                DataOps::And { vx, vy } => vx < 16 && vy < 16,
                DataOps::Xor { vx, vy } => vx < 16 && vy < 16,
                DataOps::Shr { vx } => vx < 16,
                DataOps::Shl { vx } => vx < 16,
                DataOps::Rand { vx, .. } => vx < 16,
            },
            Instruction::Memory(op) => {
                let i = self.cpu.get_i() as usize;
                match op {
                    MemoryOps::SetI { .. } => true,
                    MemoryOps::AddI { vx } => vx < 16 && i + self.cpu.get_v(vx as usize) as usize
                        <= 0xFFFF,
                    MemoryOps::LoadSprite { vx } => vx < 16,
                    MemoryOps::StoreBcd { vx } => vx < 16 && i + 2 < MEMORY_SIZE,
                    MemoryOps::StoreRegs { vx } => vx < 16 && i + (vx as usize) < MEMORY_SIZE,
                    MemoryOps::ReadRegs { vx } => vx < 16 && i + (vx as usize) < MEMORY_SIZE,
                }
            },
            Instruction::Graphics(op) => match op {
                Graphics::Clear => true,
                Graphics::Draw { vx, vy, n } => {
                    if vx < 16 && vy < 16 && (self.cpu.get_i() as usize) + (n as usize)
                        <= MEMORY_SIZE {
                        let (x, y) = self.get_v_pair(vx, vy);
                        can_draw(n as usize, x as usize, y as usize)
                    } else {
                        false
                    }
                },
            },
            Instruction::Input(op) => match op {
                Input::SkipPressed { vx } => {
                    if vx < 16 && self.cpu.get_v(vx as usize) < 16 {
                        !self.keypad.is_key_pressed(self.cpu.get_v(vx as usize)) || pc <= 0xFFFD
                    } else {
                        false
                    }
                },
                Input::SkipNotPressed { vx } => {
                    if vx < 16 && self.cpu.get_v(vx as usize) < 16 {
                        self.keypad.is_key_pressed(self.cpu.get_v(vx as usize)) || pc <= 0xFFFD
                    } else {
                        false
                    }
                },
                Input::WaitKey { vx } => if self.keypad.is_any_key_pressed() {
                    vx < 16
                } else {
                    pc >= 2
                },
            },
            Instruction::Timers(op) => match op {
                Timers::GetDelay { vx } => vx < 16,
                Timers::SetDelay { vx } => vx < 16,
                Timers::SetSound { vx } => vx < 16,
            },
            Instruction::Unknown(_) => true,
        }
    }

    /// Whether executing `instruction` now is possible (see `execute_ok`).
    pub fn can_execute(&self, instruction: Instruction) -> (r: bool)
        requires
            self.wf(),
        ensures
            r == execute_ok(self@, instruction),
    {
        let r = self.can_execute_at(instruction, self.cpu.get_pc());
        assert(with_pc(self@, self@.cpu.pc) == self@);
        r
    }

    /// Whether one fetch-decode-execute cycle is possible now (see
    /// `cycle_ok`).
    pub fn can_cycle(&self) -> (r: bool)
        requires
            self.wf(),
        ensures
            r == cycle_ok(self@),
    {
        let pc = self.cpu.get_pc();
        if pc as usize + 1 >= MEMORY_SIZE {
            return false;
        }
        let opcode = self.memory.read_word(pc as usize);
        let instruction = Instruction::decode(opcode);
        self.can_execute_at(instruction, pc + 2)
    }

    /// The values of `Vx` and `Vy`, widened.
    pub fn get_v_pair(&self, vx: u8, vy: u8) -> (r: (u16, u16))
        requires
            vx < 16,
            vy < 16,
        ensures
            r == (self@.cpu.v[vx as int] as u16, self@.cpu.v[vy as int] as u16),
    {
        let val_x = self.cpu.get_v(vx as usize) as u16;
        let val_y = self.cpu.get_v(vy as usize) as u16;
        (val_x, val_y)
    }

    /// Executes a control-flow instruction.
    pub fn ex_control(&mut self, op: ControlFlow)
        requires
            old(self).wf(),
            control_ok(old(self)@.cpu, op),
        ensures
            final(self).wf(),
            final(self)@ == (Machine { cpu: control_next(old(self)@.cpu, op), ..old(self)@ }),
    {
        match op {
            ControlFlow::Return => {
                let addr = self.cpu.stack.pop();
                self.cpu.set_pc(addr);
            },
            ControlFlow::Jump { nnn } => {
                self.cpu.set_pc(nnn)
            },
            ControlFlow::Call { nnn } => {
                let pc = self.cpu.get_pc();
                self.cpu.stack.push(pc);
                self.cpu.set_pc(nnn);
            },
            ControlFlow::SkipIfEq { vx, kk } => {
                if self.cpu.get_v(vx as usize) == kk {
                    self.cpu.skip();
                }
            },
            ControlFlow::SkipIfNotEq { vx, kk } => {
                if self.cpu.get_v(vx as usize) != kk {
                    self.cpu.skip();
                }
            },
            ControlFlow::SkipIfRegEq { vx, vy } => {
                if self.cpu.get_v(vx as usize) == self.cpu.get_v(vy as usize) {
                    self.cpu.skip();
                }
            },
            ControlFlow::SkipIfRegNeq { vx, vy } => {
                if self.cpu.get_v(vx as usize) != self.cpu.get_v(vy as usize) {
                    self.cpu.skip();
                }
            },
            ControlFlow::JumpReg { nnn } => {
                let target = nnn + self.cpu.get_v(0) as u16;
                self.cpu.set_pc(target);
            },
        }
        assert(self@ == (Machine {
            cpu: control_next(old(self)@.cpu, op),
            ..old(self)@
        }));
    }

    /// Executes a data instruction and tells whether it ran; a `Rand`
    /// instruction draws its random byte from the operating system's
    /// generator, and when none comes it does not run and the machine is left
    /// as it was. Every other data instruction runs.
    pub fn ex_data(&mut self, op: DataOps) -> (ran: bool)
        requires
            old(self).wf(),
            data_ok(op),
        ensures
            final(self).wf(),
            !(op is Rand) ==> ran,
            ran ==> exists|rnd: u8|
                final(self)@ == (Machine {
                    cpu: #[trigger] data_next(old(self)@.cpu, op, rnd),
                    ..old(self)@
                }),
            !ran ==> final(self)@ == old(self)@,
    {
        let rnd: u8 = match op {
            DataOps::Rand { .. } => match random_byte() {
                Some(b) => b,
                None => {
                    return false;
                },
            },
            _ => 0,
        };
        self.ex_data_with_random(op, rnd);
        true
    }

    /// Executes a data instruction, with `rnd` as the random byte that a
    /// `Rand` instruction masks.
    pub fn ex_data_with_random(&mut self, op: DataOps, rnd: u8)
        requires
            old(self).wf(),
            data_ok(op),
        ensures
            final(self).wf(),
            final(self)@ == (Machine { cpu: data_next(old(self)@.cpu, op, rnd), ..old(self)@ }),
    {
        match op {
            DataOps::Add { .. } | DataOps::Sub { .. } | DataOps::Subn { .. } => {
                self.ex_data_arith(op, rnd)
            },
            DataOps::Shr { .. } | DataOps::Shl { .. } => self.ex_data_shift(op, rnd),
            _ => self.ex_data_logic(op, rnd),
        }
    }

    /// Executes the data instructions that are register moves, bitwise logic
    /// and random numbers.
    fn ex_data_logic(&mut self, op: DataOps, rnd: u8)
        requires
            old(self).wf(),
            data_ok(op),
            op is LoadImm || op is Mov || op is AddImm || op is Or || op is And || op is Xor
                || op is Rand,
        ensures
            final(self).wf(),
            final(self)@ == (Machine { cpu: data_next(old(self)@.cpu, op, rnd), ..old(self)@ }),
    {
        match op {
            DataOps::LoadImm { vx, kk } => {
                self.cpu.set_v(vx as usize, kk);
            },
            DataOps::Mov { vx, vy } => {
                let val = self.cpu.get_v(vy as usize);
                self.cpu.set_v(vx as usize, val);
            },
            DataOps::AddImm { vx, kk } => {
                let val = self.cpu.get_v(vx as usize).wrapping_add(kk);
                self.cpu.set_v(vx as usize, val);
            },
            DataOps::Or { vx, vy } => {
                let val = self.cpu.get_v(vx as usize) | self.cpu.get_v(vy as usize);
                self.cpu.set_v(vx as usize, val);
            },
            DataOps::And { vx, vy } => {
                let val = self.cpu.get_v(vx as usize) & self.cpu.get_v(vy as usize);
                self.cpu.set_v(vx as usize, val);
            },
            DataOps::Xor { vx, vy } => {
                let val = self.cpu.get_v(vx as usize) ^ self.cpu.get_v(vy as usize);
                self.cpu.set_v(vx as usize, val);
            },
            DataOps::Rand { vx, kk } => {
                self.cpu.set_v(vx as usize, rnd & kk);
            },
            _ => {},
        }
        assert(self@ == (Machine { cpu: data_next(old(self)@.cpu, op, rnd), ..old(self)@ }));
    }

    /// Executes the data instructions that are additions and subtractions with a flag.
    fn ex_data_arith(&mut self, op: DataOps, rnd: u8)
        requires
            old(self).wf(),
            data_ok(op),
            op is Add || op is Sub || op is Subn,
        ensures
            final(self).wf(),
            final(self)@ == (Machine { cpu: data_next(old(self)@.cpu, op, rnd), ..old(self)@ }),
    {
        match op {
            DataOps::Add { vx, vy } => {
                let val = self.cpu.get_v(vx as usize) as u16 + self.cpu.get_v(vy as usize) as u16;
                assert(val as u8 == (val % 256) as u8) by (bit_vector);
                self.cpu.set_v(vx as usize, val as u8);
                self.cpu.set_v(
                    FLAG,
                    if val > 0xFF {
                        1
                    } else {
                        0
                    },
                );
            },
            DataOps::Sub { vx, vy } => {
                let (val_x, val_y) = self.get_v_pair(vx, vy);
                let w = val_x.wrapping_sub(val_y);
                proof {
                    lemma_sub_byte(val_x, val_y, w);
                }
                self.cpu.set_v(vx as usize, w as u8);
                self.cpu.set_v(
                    FLAG,
                    if val_x >= val_y {
                        1
                    } else {
                        0
                    },
                );
            },
            DataOps::Subn { vx, vy } => {
                let (val_x, val_y) = self.get_v_pair(vx, vy);
                let w = val_y.wrapping_sub(val_x);
                proof {
                    lemma_sub_byte(val_y, val_x, w);
                }
                self.cpu.set_v(vx as usize, w as u8);
                self.cpu.set_v(
                    FLAG,
                    if val_y >= val_x {
                        1
                    } else {
                        0
                    },
                );
            },
            _ => {},
        }
        assert(self@ == (Machine { cpu: data_next(old(self)@.cpu, op, rnd), ..old(self)@ }));
    }

    /// Executes the data instructions that are shifts.
    fn ex_data_shift(&mut self, op: DataOps, rnd: u8)
        requires
            old(self).wf(),
            data_ok(op),
            op is Shr || op is Shl,
        ensures
            final(self).wf(),
            final(self)@ == (Machine { cpu: data_next(old(self)@.cpu, op, rnd), ..old(self)@ }),
    {
        match op {
            DataOps::Shr { vx } => {
                let a = self.cpu.get_v(vx as usize);
                let lsb = a & 0x1;
                let val = a >> 1u8;
                assert(lsb == a % 2 && val == a / 2) by (bit_vector)
                    requires
                        lsb == a & 0x1,
                        val == a >> 1u8,
                ;
                self.cpu.set_v(vx as usize, val);
                self.cpu.set_v(FLAG, lsb);
            },
            DataOps::Shl { vx } => {
                let a = self.cpu.get_v(vx as usize);
                let msb = (a >> 7u8) & 0x1;
                let val = a << 1u8;
                assert(msb == a / 128 && val == (a * 2) % 256) by (bit_vector)
                    requires
                        msb == (a >> 7u8) & 0x1,
                        val == a << 1u8,
                ;
                self.cpu.set_v(vx as usize, val);
                self.cpu.set_v(FLAG, msb);
            },
            _ => {},
        }
        assert(self@ == (Machine { cpu: data_next(old(self)@.cpu, op, rnd), ..old(self)@ }));
    }

    /// Executes a memory instruction.
    pub fn ex_memory(&mut self, op: MemoryOps)
        requires
            old(self).wf(),
            memory_ok(old(self)@, op),
        ensures
            final(self).wf(),
            final(self)@ == memory_next(old(self)@, op),
    {
        match op {
            MemoryOps::SetI { nnn } => {
                self.cpu.set_i(nnn);
            },
            MemoryOps::AddI { vx } => {
                let curr_i = self.cpu.get_i();
                let val = self.cpu.get_v(vx as usize) as u16;
                self.cpu.set_i(curr_i + val);
            },
            MemoryOps::LoadSprite { vx } => {
                let digit = self.cpu.get_v(vx as usize);
                self.cpu.set_i(digit as u16 * 5);
            },
            MemoryOps::StoreBcd { vx } => {
                let i = self.cpu.get_i() as usize;
                let value = self.cpu.get_v(vx as usize);
                self.memory.write(i, value / 100);
                self.memory.write(i + 1, (value / 10) % 10);
                self.memory.write(i + 2, value % 10);
            },
            MemoryOps::StoreRegs { vx } => {
                let i = self.cpu.get_i() as usize;
                let last = vx as usize;
                let mut idx: usize = 0;
                while idx <= last
                    invariant
                        last == vx,
                        last < 16,
                        i == old(self)@.cpu.i,
                        i + last < MEMORY_SIZE,
                        idx <= last + 1,
                        old(self).wf(),
                        self.wf(),
                        self@ == (Machine {
                            mem: with_bytes(
                                old(self)@.mem,
                                i as int,
                                old(self)@.cpu.v.take(idx as int),
                            ),
                            ..old(self)@
                        }),
                    decreases last + 1 - idx,
                {
                    let val = self.cpu.get_v(idx);
                    self.memory.write(i + idx, val);
                    idx = idx + 1;
                    proof {
                        let data = old(self)@.cpu.v.take(idx as int);
                        let prev = old(self)@.cpu.v.take(idx - 1);
                        assert forall|j: int| 0 <= j < MEMORY_SIZE implies #[trigger] self@.mem[j]
                            == with_bytes(old(self)@.mem, i as int, data)[j] by {
                            lemma_with_bytes_index(old(self)@.mem, i as int, data, j);
                            lemma_with_bytes_index(old(self)@.mem, i as int, prev, j);
                        }
                        lemma_with_bytes_index(old(self)@.mem, i as int, data, 0);
                        assert(self@.mem =~= with_bytes(old(self)@.mem, i as int, data));
                    }
                }
            },
            MemoryOps::ReadRegs { vx } => {
                let i = self.cpu.get_i() as usize;
                let last = vx as usize;
                let mut idx: usize = 0;
                while idx <= last
                    invariant
                        last == vx,
                        last < 16,
                        i == old(self)@.cpu.i,
                        i + last < MEMORY_SIZE,
                        idx <= last + 1,
                        old(self).wf(),
                        self.wf(),
                        self@ == (Machine {
                            cpu: CpuState {
                                v: self@.mem.subrange(i as int, i + idx) + old(self)@.cpu.v.skip(
                                    idx as int,
                                ),
                                ..old(self)@.cpu
                            },
                            ..old(self)@
                        }),
                    decreases last + 1 - idx,
                {
                    let val = self.memory.read(idx + i);
                    self.cpu.set_v(idx, val);
                    idx = idx + 1;
                    assert(self@.cpu.v =~= self@.mem.subrange(i as int, i + idx) + old(
                        self,
                    )@.cpu.v.skip(idx as int));
                }
            },
        }
        assert(self@ == memory_next(old(self)@, op));
    }

    /// Executes a screen instruction.
    pub fn ex_graphics(&mut self, op: Graphics)
        requires
            old(self).wf(),
            graphics_ok(old(self)@, op),
        ensures
            final(self).wf(),
            final(self)@ == graphics_next(old(self)@, op),
    {
        match op {
            Graphics::Clear => {
                self.display.clear();
            },
            Graphics::Draw { vx, vy, n } => {
                let (cord_x, cord_y) = self.get_v_pair(vx, vy);
                let i = self.cpu.get_i() as usize;
                let sprite = self.memory.read_bytes(i, n as usize);
                let collision = self.display.drawing(
                    sprite.as_slice(),
                    cord_x as usize,
                    cord_y as usize,
                );
                self.cpu.set_v(
                    FLAG,
                    if collision {
                        1
                    } else {
                        0
                    },
                );
            },
        }
        assert(self@ == graphics_next(old(self)@, op));
    }

    /// Executes a keypad instruction.
    pub fn ex_input(&mut self, op: Input)
        requires
            old(self).wf(),
            input_ok(old(self)@, op),
        ensures
            final(self).wf(),
            final(self)@ == (Machine { cpu: input_next(old(self)@, op), ..old(self)@ }),
    {
        match op {
            Input::SkipPressed { vx } => {
                let key = self.cpu.get_v(vx as usize);
                if self.keypad.is_key_pressed(key) {
                    self.cpu.skip();
                }
            },
            Input::SkipNotPressed { vx } => {
                let key = self.cpu.get_v(vx as usize);
                if !self.keypad.is_key_pressed(key) {
                    self.cpu.skip();
                }
            },
            Input::WaitKey { vx } => {
                if !self.keypad.is_any_key_pressed() {
                    let pc = self.cpu.get_pc();
                    self.cpu.set_pc(pc - 2);
                } else {
                    let key = self.keypad.get_last_pressed_key();
                    self.cpu.set_v(vx as usize, key)
                }
            },
        }
        assert(self@ == (Machine {
            cpu: input_next(old(self)@, op),
            ..old(self)@
        }));
    }

    /// Executes a timer instruction.
    pub fn ex_timers(&mut self, op: Timers)
        requires
            old(self).wf(),
            timers_ok(op),
        ensures
            final(self).wf(),
            final(self)@ == (Machine { cpu: timers_next(old(self)@.cpu, op), ..old(self)@ }),
    {
        match op {
            Timers::GetDelay { vx } => {
                let val = self.cpu.get_dl_timer();
                self.cpu.set_v(vx as usize, val);
            },
            Timers::SetDelay { vx } => {
                let val = self.cpu.get_v(vx as usize);
                self.cpu.set_dl_time(val);
            },
            Timers::SetSound { vx } => {
                let val = self.cpu.get_v(vx as usize);
                self.cpu.set_sound(val);
            },
        }
        assert(self@ == (Machine {
            cpu: timers_next(old(self)@.cpu, op),
            ..old(self)@
        }));
    }
}

/// A subroutine call followed by a return resumes right where the call left
/// off, with the stack as deep as before; the used slot keeps the return
/// address.
pub proof fn lemma_call_return(c: CpuState, nnn: u16)
    requires
        c.wf(),
        c.sp < 16,
    ensures
        control_ok(control_next(c, ControlFlow::Call { nnn }), ControlFlow::Return),
        control_next(control_next(c, ControlFlow::Call { nnn }), ControlFlow::Return) == (CpuState {
            stack: c.stack.update(c.sp as int, c.pc),
            ..c
        }),
{
}

/// `Add` keeps the whole sum: the new `Vx` plus 256 times the carry in `VF`
/// is the sum of the old `Vx` and `Vy` (when `Vx` is not `VF` itself).
pub proof fn lemma_add_carry(c: CpuState, vx: u8, vy: u8, rnd: u8)
    requires
        c.wf(),
        vx < 15,
        vy < 16,
    ensures
        ({
            let n = data_next(c, DataOps::Add { vx, vy }, rnd);
            n.v[vx as int] + 256 * n.v[FLAG as int] == c.v[vx as int] + c.v[vy as int]
        }),
{
}

/// `Sub` borrows exactly when `VF` is 0: the new `Vx` is the old `Vx` minus
/// `Vy`, plus 256 when `VF` reports a borrow (when `Vx` is not `VF` itself).
pub proof fn lemma_sub_borrow(c: CpuState, vx: u8, vy: u8, rnd: u8)
    requires
        c.wf(),
        vx < 15,
        vy < 16,
    ensures
        ({
            let n = data_next(c, DataOps::Sub { vx, vy }, rnd);
            n.v[vx as int] == c.v[vx as int] - c.v[vy as int] + 256 * (1 - n.v[FLAG as int])
        }),
{
}

/// `Shr` loses no bit: twice the new `Vx` plus `VF` is the old `Vx` (when
/// `Vx` is not `VF` itself).
pub proof fn lemma_shr_keeps_bits(c: CpuState, vx: u8, rnd: u8)
    requires
        c.wf(),
        vx < 15,
    ensures
        ({
            let n = data_next(c, DataOps::Shr { vx }, rnd);
            2 * n.v[vx as int] + n.v[FLAG as int] == c.v[vx as int]
        }),
{
    let a = c.v[vx as int];
    let n = data_next(c, DataOps::Shr { vx }, rnd);
    assert(n.v[vx as int] == a / 2);
    assert(n.v[FLAG as int] == a % 2);
}

/// `Shl` loses no bit: the new `Vx` plus 256 times `VF` is twice the old
/// `Vx` (when `Vx` is not `VF` itself).
pub proof fn lemma_shl_keeps_bits(c: CpuState, vx: u8, rnd: u8)
    requires
        c.wf(),
        vx < 15,
    ensures
        ({
            let n = data_next(c, DataOps::Shl { vx }, rnd);
            n.v[vx as int] + 256 * n.v[FLAG as int] == 2 * c.v[vx as int]
        }),
{
    let a = c.v[vx as int];
    let n = data_next(c, DataOps::Shl { vx }, rnd);
    assert(n.v[vx as int] == (a * 2) % 256);
    assert(n.v[FLAG as int] == a / 128);
}

/// A random value never has a bit that the mask of `Rand` clears.
pub proof fn lemma_rand_masked(c: CpuState, vx: u8, kk: u8, rnd: u8)
    requires
        c.wf(),
        vx < 16,
    ensures
        data_next(c, DataOps::Rand { vx, kk }, rnd).v[vx as int] & !kk == 0,
{
    assert((rnd & kk) & !kk == 0) by (bit_vector);
}

/// `StoreBcd` stores the three decimal digits of `Vx`, most significant first.
pub proof fn lemma_bcd_digits(s: Machine, vx: u8)
    requires
        s.wf(),
        memory_ok(s, MemoryOps::StoreBcd { vx }),
    ensures
        ({
            let m = memory_next(s, MemoryOps::StoreBcd { vx }).mem;
            let i = s.cpu.i as int;
            &&& m[i] <= 2
            &&& m[i + 1] < 10
            &&& m[i + 2] < 10
            &&& 100 * m[i] + 10 * m[i + 1] + m[i + 2] == s.cpu.v[vx as int]
        }),
{
}

/// Reading back registers stored at the same address gives them back and
/// changes nothing else.
pub proof fn lemma_store_then_read_regs(s: Machine, vx: u8)
    requires
        s.wf(),
        memory_ok(s, MemoryOps::StoreRegs { vx }),
    ensures
        memory_ok(memory_next(s, MemoryOps::StoreRegs { vx }), MemoryOps::ReadRegs { vx }),
        memory_next(memory_next(s, MemoryOps::StoreRegs { vx }), MemoryOps::ReadRegs { vx })
            == memory_next(s, MemoryOps::StoreRegs { vx }),
{
    let t = memory_next(s, MemoryOps::StoreRegs { vx });
    let i = s.cpu.i as int;
    let data = s.cpu.v.take(vx + 1);
    assert forall|j: int| i <= j < i + vx + 1 implies #[trigger] t.mem[j] == s.cpu.v[j - i] by {
        lemma_with_bytes_index(s.mem, i, data, j);
    }
    lemma_with_bytes_index(s.mem, i, data, 0);
    let u = memory_next(t, MemoryOps::ReadRegs { vx });
    assert(u.cpu.v =~= s.cpu.v);
    assert(u =~= t);
}

/// Drawing the same sprite twice in a row leaves the screen as it was; when
/// the sprite starts on a screen column, one of the two draws sets `VF` to 1
/// exactly when a set pixel of the sprite lands on the screen.
pub proof fn lemma_draw_twice_restores(s: Machine, vx: u8, vy: u8, n: u8)
    requires
        s.wf(),
        vx < 15,
        vy < 15,
        graphics_ok(s, Graphics::Draw { vx, vy, n }),
    ensures
        graphics_ok(graphics_next(s, Graphics::Draw { vx, vy, n }), Graphics::Draw { vx, vy, n }),
        graphics_next(
            graphics_next(s, Graphics::Draw { vx, vy, n }),
            Graphics::Draw { vx, vy, n },
        ).screen == s.screen,
        ({
            let d = Graphics::Draw { vx, vy, n };
            let first = graphics_next(s, d);
            let second = graphics_next(first, d);
            s.cpu.v[vx as int] < WIDTH ==> ((first.cpu.v[FLAG as int] == 1
                || second.cpu.v[FLAG as int] == 1) == sprite_visible(
                s.mem.subrange(s.cpu.i as int, s.cpu.i + n),
                s.cpu.v[vx as int] as usize,
                s.cpu.v[vy as int] as usize,
            ))
        }),
{
    let t = graphics_next(s, Graphics::Draw { vx, vy, n });
    assert(t.cpu.v[vx as int] == s.cpu.v[vx as int]);
    assert(t.cpu.v[vy as int] == s.cpu.v[vy as int]);
    let sprite = s.mem.subrange(s.cpu.i as int, s.cpu.i + n);
    let x = s.cpu.v[vx as int] as usize;
    let y = s.cpu.v[vy as int] as usize;
    lemma_draw_twice(s.screen, sprite, x, y);
    if x < WIDTH {
        lemma_draw_twice_collides(s.screen, sprite, x, y);
    }
}

/// Every instruction that is neither a control-flow nor a keypad instruction
/// moves on to the next instruction.
pub proof fn lemma_cycle_moves_on(s: Machine, rnd: u8)
    requires
        s.wf(),
        cycle_ok(s),
        !(decode_spec(fetch(s)) is Control),
        !(decode_spec(fetch(s)) is Input),
    ensures
        cycle_next(s, rnd).cpu.pc == s.cpu.pc + 2,
{
}

/// While no key is down, a cycle that meets a key wait leaves the machine
/// exactly as it was, so the wait runs again on the next cycle.
pub proof fn lemma_wait_key_repeats(s: Machine, rnd: u8)
    requires
        s.wf(),
        cycle_ok(s),
        decode_spec(fetch(s)) is Input,
        decode_spec(fetch(s))->Input_0 is WaitKey,
        !any_pressed(s.keys),
    ensures
        cycle_next(s, rnd) == s,
        cycle_ok(cycle_next(s, rnd)),
{
    assert(cycle_next(s, rnd) =~= s);
}

/// One cycle is the instruction of the opcode at the program counter, run
/// once the program counter has moved past it: each group of instructions
/// makes the step its `ex_*` method makes, and an opcode that no instruction
/// matches only moves the program counter on.
pub proof fn lemma_cycle_is_fetch_then_execute(s: Machine, rnd: u8)
    requires
        s.wf(),
        cycle_ok(s),
    ensures
        ({
            let a = with_pc(s, (s.cpu.pc + 2) as u16);
            let c = a.cpu;
            cycle_next(s, rnd) == match decode_spec(word_at(s.mem, s.cpu.pc as int)) {
                Instruction::Control(op) => Machine { cpu: control_next(c, op), ..a },
                Instruction::Data(op) => Machine { cpu: data_next(c, op, rnd), ..a },
                Instruction::Memory(op) => memory_next(a, op),
                Instruction::Graphics(op) => graphics_next(a, op),
                Instruction::Input(op) => Machine { cpu: input_next(a, op), ..a },
                Instruction::Timers(op) => Machine { cpu: timers_next(c, op), ..a },
                Instruction::Unknown(_) => a,
            }
        }),
{
}

/// A program loaded into a fresh machine is where execution starts: the
/// first opcode fetched is made of the program's first two bytes.
pub proof fn lemma_first_fetch(mode: Versions, rom: Seq<u8>)
    requires
        2 <= rom.len() <= MEMORY_SIZE - PROGRAM_START,
    ensures
        ({
            let s = Machine {
                mem: with_bytes(Machine::initial(mode).mem, PROGRAM_START as int, rom),
                ..Machine::initial(mode)
            };
            fetch(s) == rom[0] * 256 + rom[1]
        }),
{
    let m0 = Machine::initial(mode).mem;
    assert(m0.len() == MEMORY_SIZE);
    lemma_with_bytes_index(m0, PROGRAM_START as int, rom, PROGRAM_START as int);
    lemma_with_bytes_index(m0, PROGRAM_START as int, rom, PROGRAM_START + 1);
}

/// Only `Rand` depends on chance: for every other instruction a cycle has one
/// outcome, whatever random byte is drawn.
pub proof fn lemma_cycle_determined(s: Machine, r1: u8, r2: u8)
    requires
        s.wf(),
        cycle_ok(s),
        !(decode_spec(fetch(s)) is Data && decode_spec(fetch(s))->Data_0 is Rand),
    ensures
        cycle_next(s, r1) == cycle_next(s, r2),
{
}

/// A cycle keeps the machine well formed.
pub proof fn lemma_cycle_keeps_wf(s: Machine, rnd: u8)
    requires
        s.wf(),
        cycle_ok(s),
    ensures
        cycle_next(s, rnd).wf(),
{
    let a = advanced(s);
    let ins = decode_spec(fetch(s));
    match ins {
        Instruction::Memory(op) => match op {
            MemoryOps::StoreRegs { vx } => {
                lemma_with_bytes_index(a.mem, a.cpu.i as int, a.cpu.v.take(vx + 1), 0);
            },
            _ => {},
        },
        _ => {},
    }
}

} // verus!
