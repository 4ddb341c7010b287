use vstd::prelude::*;
use super::display::{dark_screen, frame_of, Display, PIXELS};
use super::keypad::{any_pressed, latest_press, Keypad};
use super::memory::{with_bytes, Memory, initial_memory, MEMORY_SIZE, PROGRAM_START};
use super::module::Versions;

verus! {

/// Address of the first instruction executed after power-on.
pub const ENTRY_POINT: u16 = 0x200;

/// The processor state: the sixteen registers `V0..VF`, the index register
/// `I`, the program counter, the two timers, the return-address stack with
/// its depth, and the remaining processor flags.
#[verifier::ext_equal]
pub struct CpuState {
    pub v: Seq<u8>,
    pub i: u16,
    pub pc: u16,
    pub delay: u8,
    pub sound: u8,
    pub stack: Seq<u16>,
    pub sp: nat,
    pub high_res: bool,
    pub rpl: Seq<u8>,
    pub mode: Versions,
}

impl CpuState {
    /// Sixteen registers, sixteen stack slots of which at most all are in use,
    /// eight flag bytes.
    pub open spec fn wf(&self) -> bool {
        &&& self.v.len() == 16
        &&& self.stack.len() == 16
        &&& self.sp <= 16
        &&& self.rpl.len() == 8
    }

    /// The processor at power-on.
    pub open spec fn initial(mode: Versions) -> CpuState {
        CpuState {
            v: Seq::new(16, |k: int| 0u8),
            i: 0,
            pc: ENTRY_POINT,
            delay: 0,
            sound: 0,
            stack: Seq::new(16, |k: int| 0u16),
            sp: 0,
            high_res: false,
            rpl: Seq::new(8, |k: int| 0u8),
            mode,
        }
    }
}

/// The whole machine: processor, memory, screen and keypad.
#[verifier::ext_equal]
pub struct Machine {
    pub cpu: CpuState,
    pub mem: Seq<u8>,
    pub screen: Seq<u64>,
    pub screen_high_res: bool,
    pub keys: Seq<bool>,
    pub last_key: Option<u8>,
}

impl Machine {
    /// The sizes of all parts, and the keypad's bookkeeping: a recorded key
    /// is one of the sixteen, and one is recorded while any key is down.
    pub open spec fn wf(&self) -> bool {
        &&& self.cpu.wf()
        &&& self.mem.len() == MEMORY_SIZE
        &&& self.screen.len() == 32
        &&& self.keys.len() == 16
        &&& self.last_key matches Some(k) ==> k < 16
        &&& any_pressed(self.keys) ==> self.last_key is Some
    }

    /// The machine at power-on.
    pub open spec fn initial(mode: Versions) -> Machine {
        Machine {
            cpu: CpuState::initial(mode),
            mem: initial_memory(),
            screen: dark_screen(),
            screen_high_res: false,
            keys: Seq::new(16, |k: int| false),
            last_key: None,
        }
    }
}

/// `s` with `key` held down and recorded as the last pressed key.
pub open spec fn with_key_down(s: Machine, key: u8) -> Machine {
    Machine { keys: s.keys.update(key as int, true), last_key: Some(key), ..s }
}

/// `s` with `key` let go.
pub open spec fn with_key_up(s: Machine, key: u8) -> Machine {
    Machine { keys: s.keys.update(key as int, false), ..s }
}

/// Pressing a key that is up and letting it go again leaves the keypad as it
/// was, except that the key stays recorded as the last one pressed.
pub proof fn lemma_press_release(s: Machine, key: u8)
    requires
        s.wf(),
        key < 16,
        !s.keys[key as int],
    ensures
        with_key_up(with_key_down(s, key), key) == (Machine { last_key: Some(key), ..s }),
{
    assert(s.keys.update(key as int, true).update(key as int, false) =~= s.keys);
}

/// Holding keys down and letting them go keeps the keypad's bookkeeping:
/// while any key is down, a last pressed key is recorded.
pub proof fn lemma_keys_keep_wf(s: Machine, key: u8)
    requires
        s.wf(),
        key < 16,
    ensures
        with_key_down(s, key).wf(),
        with_key_up(s, key).wf(),
{
    let up = with_key_up(s, key).keys;
    if any_pressed(up) {
        let k = choose|k: int| 0 <= k < 16 && #[trigger] up[k];
        assert(s.keys[k]);
    }
}

/// The highest of the first `n` keys that `down` holds down, if any.
pub open spec fn highest_down(down: Seq<bool>, n: int) -> Option<u8>
    decreases n,
{
    if n <= 0 {
        None
    } else if down[n - 1] {
        Some((n - 1) as u8)
    } else {
        highest_down(down, n - 1)
    }
}

/// `s` with the keys held down exactly as `down` says; the last pressed key
/// becomes the highest key held down, and stays as it was when none is.
pub open spec fn with_keys(s: Machine, down: Seq<bool>) -> Machine {
    Machine {
        keys: down,
        last_key: match highest_down(down, 16) {
            Some(k) => Some(k),
            None => s.last_key,
        },
        ..s
    }
}

/// The machine after a sequence of key events, each a key and whether it
/// goes down (`true`) or up (`false`), oldest first.
pub open spec fn after_key_events(s: Machine, events: Seq<(u8, bool)>) -> Machine
    decreases events.len(),
{
    if events.len() == 0 {
        s
    } else {
        let prev = after_key_events(s, events.drop_last());
        let (key, down) = events.last();
        if down {
            with_key_down(prev, key)
        } else {
            with_key_up(prev, key)
        }
    }
}

/// Across any sequence of presses and releases, the last pressed key is the
/// key of the latest press, or what it was before when nothing was pressed;
/// the machine stays well formed throughout.
pub proof fn lemma_last_key_is_latest_press(s: Machine, events: Seq<(u8, bool)>)
    requires
        s.wf(),
        forall|i: int| 0 <= i < events.len() ==> (#[trigger] events[i]).0 < 16,
    ensures
        after_key_events(s, events).wf(),
        after_key_events(s, events).last_key == match latest_press(events) {
            Some(k) => Some(k),
            None => s.last_key,
        },
    decreases events.len(),
{
    if events.len() > 0 {
        let rest = events.drop_last();
        assert forall|i: int| 0 <= i < rest.len() implies (#[trigger] rest[i]).0 < 16 by {
            assert(rest[i] == events[i]);
        }
        lemma_last_key_is_latest_press(s, rest);
        let last = events.last();
        assert(last == events[events.len() - 1]);
        lemma_keys_keep_wf(after_key_events(s, rest), last.0);
    }
}

/// On a machine fresh from power-on, a last pressed key is recorded exactly
/// when some key was pressed, and it is the key of the latest press.
pub proof fn lemma_fresh_last_key(mode: Versions, events: Seq<(u8, bool)>)
    requires
        forall|i: int| 0 <= i < events.len() ==> (#[trigger] events[i]).0 < 16,
    ensures
        after_key_events(Machine::initial(mode), events).last_key == latest_press(events),
{
    let s = Machine::initial(mode);
    assert(!any_pressed(s.keys));
    lemma_last_key_is_latest_press(s, events);
}

/// The general registers `V0..VF`, the index register and the program counter.
pub struct Registers {
    pub v: [u8; 16],
    idx_i: u16,
    pc: u16,
}

impl Registers {
    /// Register `Vk`.
    pub closed spec fn v_reg(&self, k: int) -> u8 {
        self.v@[k]
    }

    /// The sixteen general registers `V0..VF`.
    pub open spec fn v_regs(&self) -> Seq<u8> {
        Seq::new(16, |k: int| self.v_reg(k))
    }

    /// The index register `I`.
    pub closed spec fn i_value(&self) -> u16 {
        self.idx_i
    }

    /// The program counter.
    pub closed spec fn pc_value(&self) -> u16 {
        self.pc
    }

    fn new() -> (r: Registers)
        ensures
            r.v_regs() == Seq::new(16, |k: int| 0u8),
            r.i_value() == 0,
            r.pc_value() == ENTRY_POINT,
    {
        let r = Registers { v: [0; 16], idx_i: 0, pc: ENTRY_POINT };
        assert(r.v@ =~= Seq::new(16, |k: int| 0u8));
        r
    }
}

/// The delay and sound timers.
pub struct Timers {
    pub delay_timer: u8,
    pub sound_timer: u8,
}

impl Timers {
    fn new() -> (r: Timers)
        ensures
            r.delay_timer == 0,
            r.sound_timer == 0,
    {
        Timers { delay_timer: 0, sound_timer: 0 }
    }
}

/// The return-address stack: sixteen slots, of which the lowest `depth()`
/// are in use.
pub struct Stack {
    pub stack: [u16; 16],
    sp: usize,
}

impl Stack {
    /// How many slots are in use.
    pub closed spec fn depth(&self) -> nat {
        self.sp as nat
    }

    /// Slot `k`, in use or not.
    pub closed spec fn slot(&self, k: int) -> u16 {
        self.stack@[k]
    }

    /// The sixteen slots, in use or not.
    pub open spec fn slots(&self) -> Seq<u16> {
        Seq::new(16, |k: int| self.slot(k))
    }

    /// At most all sixteen slots are in use.
    pub open spec fn wf(&self) -> bool {
        self.depth() <= 16
    }

    pub(crate) fn depth_now(&self) -> (r: usize)
        ensures
            r == self.depth(),
    {
        self.sp
    }

    fn new() -> (r: Stack)
        ensures
            r.slots() == Seq::new(16, |k: int| 0u16),
            r.depth() == 0,
    {
        let r = Stack { stack: [0; 16], sp: 0 };
        assert(r.stack@ =~= Seq::new(16, |k: int| 0u16));
        r
    }

    /// Puts `value` in the lowest free slot; a slot must be free.
    pub fn push(&mut self, value: u16)
        requires
            old(self).depth() < 16,
        ensures
            final(self).slots() == old(self).slots().update(old(self).depth() as int, value),
            final(self).depth() == old(self).depth() + 1,
    {
        self.stack[self.sp] = value;
        self.sp = self.sp + 1;
    }

    /// Takes the address in the highest slot in use off the stack; a slot
    /// must be in use. The slot keeps its value.
    pub fn pop(&mut self) -> (r: u16)
        requires
            old(self).wf(),
            old(self).depth() > 0,
        ensures
            r == old(self).slots()[old(self).depth() - 1],
            final(self).slots() == old(self).slots(),
            final(self).depth() == old(self).depth() - 1,
    {
        self.sp = self.sp - 1;
        self.stack[self.sp]
    }
}

/// The processor.
pub struct CPU {
    pub registers: Registers,
    pub timers: Timers,
    pub stack: Stack,
    pub high_res: bool,
    pub rpl: [u8; 8],
    pub mode: Versions,
}

impl View for CPU {
    type V = CpuState;

    open spec fn view(&self) -> CpuState {
        CpuState {
            v: self.registers.v_regs(),
            i: self.registers.i_value(),
            pc: self.registers.pc_value(),
            delay: self.timers.delay_timer,
            sound: self.timers.sound_timer,
            stack: self.stack.slots(),
            sp: self.stack.depth(),
            high_res: self.high_res,
            rpl: self.rpl@,
            mode: self.mode,
        }
    }
}

impl CPU {
    /// A processor at power-on, for the given dialect.
    pub fn new(mode: Versions) -> (r: CPU)
        ensures
            r@ == CpuState::initial(mode),
    {
        let r = CPU {
            registers: Registers::new(),
            timers: Timers::new(),
            stack: Stack::new(),
            high_res: false,
            rpl: [0; 8],
            mode,
        };
        assert(r.rpl@ =~= Seq::new(8, |k: int| 0u8));
        r
    }

    /// The program counter.
    pub fn get_pc(&self) -> (r: u16)
        ensures
            r == self@.pc,
    {
        self.registers.pc
    }

    /// Sets the program counter.
    pub fn set_pc(&mut self, value: u16)
        ensures
            final(self)@ == (CpuState { pc: value, ..old(self)@ }),
    {
        self.registers.pc = value;
    }

    /// Moves the program counter past one instruction (two bytes).
    pub fn skip(&mut self)
        requires
            old(self)@.pc + 2 <= u16::MAX,
        ensures
            final(self)@ == (CpuState { pc: (old(self)@.pc + 2) as u16, ..old(self)@ }),
    {
        self.registers.pc = self.registers.pc + 2;
    }

    /// Register `Vx`.
    pub fn get_v(&self, x: usize) -> (r: u8)
        requires
            x < 16,
        ensures
            r == self@.v[x as int],
    {
        self.registers.v[x]
    }

    /// Sets register `Vx`.
    pub fn set_v(&mut self, x: usize, value: u8)
        requires
            x < 16,
        ensures
            final(self)@ == (CpuState { v: old(self)@.v.update(x as int, value), ..old(self)@ }),
    {
        self.registers.v[x] = value;
    }

    /// The index register.
    pub fn get_i(&self) -> (r: u16)
        ensures
            r == self@.i,
    {
        self.registers.idx_i
    }

    /// Sets the index register.
    pub fn set_i(&mut self, value: u16)
        ensures
            final(self)@ == (CpuState { i: value, ..old(self)@ }),
    {
        self.registers.idx_i = value;
    }

    /// The delay timer.
    pub fn get_dl_timer(&self) -> (r: u8)
        ensures
            r == self@.delay,
    {
        self.timers.delay_timer
    }

    /// Sets the delay timer.
    pub fn set_dl_time(&mut self, val: u8)
        ensures
            final(self)@ == (CpuState { delay: val, ..old(self)@ }),
    {
        self.timers.delay_timer = val
    }

    /// Sets the sound timer.
    pub fn set_sound(&mut self, val: u8)
        ensures
            final(self)@ == (CpuState { sound: val, ..old(self)@ }),
    {
        self.timers.sound_timer = val;
    }

    /// One timer tick: each timer above zero goes down by one.
    pub fn decrement_timers(&mut self)
        ensures
            final(self)@ == (CpuState {
                delay: tick(old(self)@.delay),
                sound: tick(old(self)@.sound),
                ..old(self)@
            }),
    {
        if self.timers.delay_timer > 0 {
            self.timers.delay_timer = self.timers.delay_timer - 1;
        }
        if self.timers.sound_timer > 0 {
            self.timers.sound_timer = self.timers.sound_timer - 1;
        }
    }
}

/// A timer after one tick: one less, but not below zero.
pub open spec fn tick(t: u8) -> u8 {
    if t > 0 {
        (t - 1) as u8
    } else {
        0
    }
}

/// The whole machine: processor, memory, keypad and screen.
pub struct Emulator {
    pub cpu: CPU,
    pub memory: Memory,
    pub keypad: Keypad,
    pub display: Display,
}

impl View for Emulator {
    type V = Machine;

    open spec fn view(&self) -> Machine {
        Machine {
            cpu: self.cpu@,
            mem: self.memory.bytes(),
            screen: self.display.rows(),
            screen_high_res: self.display.high_res_flag(),
            keys: self.keypad.pressed(),
            last_key: self.keypad.last_key(),
        }
    }
}

impl Emulator {
    /// The parts have their sizes and the keypad its bookkeeping.
    pub open spec fn wf(&self) -> bool {
        self@.wf()
    }

    /// A machine at power-on for the given dialect: registers, timers and
    /// stack cleared, the program counter at `ENTRY_POINT`, the font in
    /// memory, a dark screen and no key pressed.
    pub fn new(mode: Versions) -> (r: Self)
        ensures
            r@ == Machine::initial(mode),
            r.wf(),
    {
        let r = Self {
            cpu: CPU::new(mode),
            memory: Memory::new(),
            display: Display::new(),
            keypad: Keypad::new(),
        };
        proof {
            assert(!any_pressed(r@.keys));
            assert(r@ =~= Machine::initial(mode));
        }
        r
    }

    /// Copies a program into memory from `PROGRAM_START` on.
    pub fn load_rom(&mut self, rom: &[u8])
        requires
            old(self).wf(),
            rom@.len() <= MEMORY_SIZE - PROGRAM_START,
        ensures
            final(self)@ == (Machine {
                mem: with_bytes(old(self)@.mem, PROGRAM_START as int, rom@),
                ..old(self)@
            }),
            final(self).wf(),
    {
        self.memory.load_memory(rom);
    }

    /// Holds `key` down and records it as the last pressed key.
    pub fn press_key(&mut self, key: u8)
        requires
            old(self).wf(),
            key < 16,
        ensures
            final(self)@ == with_key_down(old(self)@, key),
            final(self).wf(),
    {
        self.keypad.press_key(key);
    }

    /// Lets `key` go.
    pub fn release_key(&mut self, key: u8)
        requires
            old(self).wf(),
            key < 16,
        ensures
            final(self)@ == with_key_up(old(self)@, key),
            final(self).wf(),
    {
        self.keypad.release_key(key);
        proof {
            lemma_keys_keep_wf(old(self)@, key);
        }
    }

    /// Holds down exactly the keys that `down` marks, lets the others go,
    /// and records the highest key held down as the last pressed one (the
    /// record stays as it was when no key is down).
    pub fn set_keys(&mut self, down: [bool; 16])
        requires
            old(self).wf(),
        ensures
            final(self).wf(),
            final(self)@ == with_keys(old(self)@, down@),
    {
        let mut k: u8 = 0;
        while k < 16
            invariant
                k <= 16,
                old(self).wf(),
                self.wf(),
                self@ == (Machine {
                    keys: down@.take(k as int) + old(self)@.keys.skip(k as int),
                    last_key: match highest_down(down@, k as int) {
                        Some(h) => Some(h),
                        None => old(self)@.last_key,
                    },
                    ..old(self)@
                }),
            decreases 16 - k,
        {
            if down[k as usize] {
                self.press_key(k);
            } else {
                self.release_key(k);
            }
            k = k + 1;
            assert(self@.keys =~= down@.take(k as int) + old(self)@.keys.skip(k as int));
        }
        assert(down@.take(16) =~= down@);
        assert(self@.keys =~= down@);
    }

    /// The screen as `WIDTH * HEIGHT` colours, row by row.
    pub fn render(&self) -> (r: [u32; PIXELS])
        ensures
            r@ == frame_of(self@.screen),
    {
        self.display.render()
    }
}

} // verus!
