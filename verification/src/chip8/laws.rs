use vstd::prelude::*;
use vstd::arithmetic::div_mod::lemma_fundamental_div_mod_converse;
use super::cpu::{highest_down, tick, with_key_down, with_keys, CpuState, Machine};
use super::display::{
    frame_of, lemma_dark_frame, pixel_lit, signed_byte, sprite_bits, sprite_pixel, DARK, HEIGHT,
    LIT, PIXELS, WIDTH,
};
use super::keypad::any_pressed;
use super::memory::{lemma_with_bytes_index, MEMORY_SIZE};
use super::module::{ControlFlow, DataOps, Graphics, Input, MemoryOps, Timers};
use super::multy_executor::{
    control_next, data_next, graphics_next, graphics_ok, input_next, memory_next, timers_next,
    FLAG,
};

verus! {

/// Whether `n` differs from `c` at most in its registers, and there only in
/// `Vx` and (when `flag`) `VF`.
pub open spec fn only_reg_changed(c: CpuState, n: CpuState, x: int, flag: bool) -> bool {
    &&& (CpuState { v: n.v, ..c }) == n
    &&& n.v.len() == 16
    &&& forall|j: int|
        0 <= j < 16 && j != x && (!flag || j != FLAG) ==> #[trigger] n.v[j] == c.v[j]
}

/// Whether `n` differs from `c` at most in its program counter.
pub open spec fn only_pc_changed(c: CpuState, n: CpuState) -> bool {
    (CpuState { pc: n.pc, ..c }) == n
}

// ---------------------------------------------------------------------------
// Register loads and bitwise logic.

/// `6xkk` puts `kk` in `Vx` and touches nothing else.
pub proof fn law_load_imm(c: CpuState, vx: u8, kk: u8, rnd: u8)
    requires
        c.wf(),
        vx < 16,
    ensures
        ({
            let n = data_next(c, DataOps::LoadImm { vx, kk }, rnd);
            n.v[vx as int] == kk && only_reg_changed(c, n, vx as int, false)
        }),
{
}

/// After `8xy0`, `Vx` and `Vy` hold the same value, the value `Vy` held.
pub proof fn law_mov(c: CpuState, vx: u8, vy: u8, rnd: u8)
    requires
        c.wf(),
        vx < 16,
        vy < 16,
    ensures
        ({
            let n = data_next(c, DataOps::Mov { vx, vy }, rnd);
            &&& n.v[vx as int] == n.v[vy as int]
            &&& n.v[vy as int] == c.v[vy as int]
            &&& only_reg_changed(c, n, vx as int, false)
        }),
{
}

/// `7xkk` adds `kk` to `Vx` modulo 256 and leaves `VF` alone.
pub proof fn law_add_imm(c: CpuState, vx: u8, kk: u8, rnd: u8)
    requires
        c.wf(),
        vx < 16,
    ensures
        ({
            let n = data_next(c, DataOps::AddImm { vx, kk }, rnd);
            (n.v[vx as int] - c.v[vx as int] - kk) % 256 == 0 && only_reg_changed(
                c,
                n,
                vx as int,
                false,
            )
        }),
{
}

/// `8xy1` sets in `Vx` every bit set in `Vx` or `Vy`, and no other bit.
pub proof fn law_or(c: CpuState, vx: u8, vy: u8, rnd: u8)
    requires
        c.wf(),
        vx < 16,
        vy < 16,
    ensures
        ({
            let n = data_next(c, DataOps::Or { vx, vy }, rnd);
            let (a, b, r) = (c.v[vx as int], c.v[vy as int], n.v[vx as int]);
            &&& r & a == a
            &&& r & b == b
            &&& r & !a & !b == 0
            &&& only_reg_changed(c, n, vx as int, false)
        }),
{
    let n = data_next(c, DataOps::Or { vx, vy }, rnd);
    let (a, b, r) = (c.v[vx as int], c.v[vy as int], n.v[vx as int]);
    assert(r == a | b ==> r & a == a && r & b == b && r & !a & !b == 0) by (bit_vector);
}

/// `8xy2` keeps in `Vx` exactly the bits set in both `Vx` and `Vy`.
pub proof fn law_and(c: CpuState, vx: u8, vy: u8, rnd: u8)
    requires
        c.wf(),
        vx < 16,
        vy < 16,
    ensures
        ({
            let n = data_next(c, DataOps::And { vx, vy }, rnd);
            let (a, b, r) = (c.v[vx as int], c.v[vy as int], n.v[vx as int]);
            &&& r & a == r
            &&& r & b == r
            &&& a & b & !r == 0
            &&& only_reg_changed(c, n, vx as int, false)
        }),
{
    let n = data_next(c, DataOps::And { vx, vy }, rnd);
    let (a, b, r) = (c.v[vx as int], c.v[vy as int], n.v[vx as int]);
    assert(r == a & b ==> r & a == r && r & b == r && a & b & !r == 0) by (bit_vector);
}

/// `8xy3` sets in `Vx` the bits set in exactly one of `Vx` and `Vy`: bits
/// set in both come out cleared, bits set in either otherwise come out set;
/// and for two different registers, running it twice gives `Vx` back.
pub proof fn law_xor(c: CpuState, vx: u8, vy: u8, rnd: u8)
    requires
        c.wf(),
        vx < 16,
        vy < 16,
    ensures
        ({
            let n = data_next(c, DataOps::Xor { vx, vy }, rnd);
            let (a, b, r) = (c.v[vx as int], c.v[vy as int], n.v[vx as int]);
            &&& r & a & b == 0
            &&& r & (a | b) == r
            &&& (r | (a & b)) == (a | b)
            &&& only_reg_changed(c, n, vx as int, false)
        }),
        vx != vy ==> data_next(
            data_next(c, DataOps::Xor { vx, vy }, rnd),
            DataOps::Xor { vx, vy },
            rnd,
        ).v[vx as int] == c.v[vx as int],
{
    let n = data_next(c, DataOps::Xor { vx, vy }, rnd);
    let (a, b, r) = (c.v[vx as int], c.v[vy as int], n.v[vx as int]);
    assert(r == a ^ b ==> r & a & b == 0 && r & (a | b) == r && (r | (a & b)) == (a | b))
        by (bit_vector);
    assert((a ^ b) ^ b == a) by (bit_vector);
}

/// `Cxkk` puts in `Vx` the random byte with the bits outside `kk` cleared:
/// no bit outside the mask is set, and inside it `Vx` agrees with the byte.
pub proof fn law_rand(c: CpuState, vx: u8, kk: u8, rnd: u8)
    requires
        c.wf(),
        vx < 16,
    ensures
        ({
            let n = data_next(c, DataOps::Rand { vx, kk }, rnd);
            let r = n.v[vx as int];
            &&& r & !kk == 0
            &&& (r ^ rnd) & kk == 0
            &&& only_reg_changed(c, n, vx as int, false)
        }),
{
    let r = data_next(c, DataOps::Rand { vx, kk }, rnd).v[vx as int];
    assert(r == rnd & kk ==> r & !kk == 0 && (r ^ rnd) & kk == 0) by (bit_vector);
}

// ---------------------------------------------------------------------------
// Arithmetic with a flag.

/// `8xy4` keeps the whole sum: the new `Vx` plus 256 times `VF` is the sum
/// of the old `Vx` and `Vy` (`Vx` not being `VF`).
pub proof fn law_add(c: CpuState, vx: u8, vy: u8, rnd: u8)
    requires
        c.wf(),
        vx < 15,
        vy < 16,
    ensures
        ({
            let n = data_next(c, DataOps::Add { vx, vy }, rnd);
            &&& n.v[vx as int] + 256 * n.v[FLAG as int] == c.v[vx as int] + c.v[vy as int]
            &&& only_reg_changed(c, n, vx as int, true)
        }),
{
}

/// `8xy5` subtracts `Vy` from `Vx`: the new `Vx` is the old `Vx` minus `Vy`,
/// plus 256 when `VF` is 0, which reports a borrow (`Vx` not being `VF`).
pub proof fn law_sub(c: CpuState, vx: u8, vy: u8, rnd: u8)
    requires
        c.wf(),
        vx < 15,
        vy < 16,
    ensures
        ({
            let n = data_next(c, DataOps::Sub { vx, vy }, rnd);
            &&& n.v[FLAG as int] <= 1
            &&& n.v[vx as int] == c.v[vx as int] - c.v[vy as int] + 256 * (1 - n.v[FLAG as int])
            &&& only_reg_changed(c, n, vx as int, true)
        }),
{
}

/// `8xy7` subtracts `Vx` from `Vy` into `Vx`: the new `Vx` is the old `Vy`
/// minus `Vx`, plus 256 when `VF` is 0, which reports a borrow (`Vx` not
/// being `VF`).
pub proof fn law_subn(c: CpuState, vx: u8, vy: u8, rnd: u8)
    requires
        c.wf(),
        vx < 15,
        vy < 16,
    ensures
        ({
            let n = data_next(c, DataOps::Subn { vx, vy }, rnd);
            &&& n.v[FLAG as int] <= 1
            &&& n.v[vx as int] == c.v[vy as int] - c.v[vx as int] + 256 * (1 - n.v[FLAG as int])
            &&& only_reg_changed(c, n, vx as int, true)
        }),
{
}

/// `8xy6` halves `Vx` and puts the bit shifted out in `VF`: twice the new
/// `Vx` plus `VF` is the old `Vx`, and `VF` is a single bit.
pub proof fn law_shr(c: CpuState, vx: u8, rnd: u8)
    requires
        c.wf(),
        vx < 15,
    ensures
        ({
            let n = data_next(c, DataOps::Shr { vx }, rnd);
            &&& n.v[FLAG as int] <= 1
            &&& 2 * n.v[vx as int] + n.v[FLAG as int] == c.v[vx as int]
            &&& only_reg_changed(c, n, vx as int, true)
        }),
{
}

/// `8xyE` doubles `Vx` and puts the bit shifted out in `VF`: the new `Vx`
/// plus 256 times `VF` is twice the old `Vx`.
pub proof fn law_shl(c: CpuState, vx: u8, rnd: u8)
    requires
        c.wf(),
        vx < 15,
    ensures
        ({
            let n = data_next(c, DataOps::Shl { vx }, rnd);
            &&& n.v[vx as int] + 256 * n.v[FLAG as int] == 2 * c.v[vx as int]
            &&& only_reg_changed(c, n, vx as int, true)
        }),
{
}

// ---------------------------------------------------------------------------
// Control flow.

/// `1nnn` goes to `nnn`, `Bnnn` to `nnn` plus `V0`, and neither touches
/// anything else.
pub proof fn law_jumps(c: CpuState, nnn: u16)
    requires
        c.wf(),
    ensures
        control_next(c, ControlFlow::Jump { nnn }).pc == nnn,
        only_pc_changed(c, control_next(c, ControlFlow::Jump { nnn })),
        nnn + c.v[0] <= u16::MAX ==> control_next(c, ControlFlow::JumpReg { nnn }).pc == nnn
            + c.v[0],
        only_pc_changed(c, control_next(c, ControlFlow::JumpReg { nnn })),
{
}

/// `2nnn` goes to `nnn` and leaves the address after the call on top of the
/// stack, one slot deeper.
pub proof fn law_call(c: CpuState, nnn: u16)
    requires
        c.wf(),
        c.sp < 16,
    ensures
        ({
            let n = control_next(c, ControlFlow::Call { nnn });
            &&& n.pc == nnn
            &&& n.sp == c.sp + 1
            &&& n.stack[c.sp as int] == c.pc
            &&& forall|k: int| 0 <= k < 16 && k != c.sp ==> #[trigger] n.stack[k] == c.stack[k]
        }),
{
}

/// `3xkk` skips the next instruction exactly when `Vx` equals `kk`, and
/// `4xkk` exactly when it does not: of the two, exactly one skips.
pub proof fn law_skip_byte(c: CpuState, vx: u8, kk: u8)
    requires
        c.wf(),
        vx < 16,
        c.pc + 2 <= u16::MAX,
    ensures
        ({
            let eq = control_next(c, ControlFlow::SkipIfEq { vx, kk });
            let ne = control_next(c, ControlFlow::SkipIfNotEq { vx, kk });
            &&& (eq.pc == c.pc + 2) == (c.v[vx as int] == kk)
            &&& (eq.pc == c.pc + 2 || eq.pc == c.pc)
            &&& (ne.pc == c.pc + 2) == (c.v[vx as int] != kk)
            &&& (ne.pc == c.pc + 2 || ne.pc == c.pc)
            &&& eq.pc + ne.pc == 2 * c.pc + 2
            &&& only_pc_changed(c, eq)
            &&& only_pc_changed(c, ne)
        }),
{
}

/// `5xy0` skips the next instruction exactly when `Vx` equals `Vy`, and
/// `9xy0` exactly when they differ: of the two, exactly one skips.
pub proof fn law_skip_regs(c: CpuState, vx: u8, vy: u8)
    requires
        c.wf(),
        vx < 16,
        vy < 16,
        c.pc + 2 <= u16::MAX,
    ensures
        ({
            let eq = control_next(c, ControlFlow::SkipIfRegEq { vx, vy });
            let ne = control_next(c, ControlFlow::SkipIfRegNeq { vx, vy });
            &&& (eq.pc == c.pc + 2) == (c.v[vx as int] == c.v[vy as int])
            &&& (eq.pc == c.pc + 2 || eq.pc == c.pc)
            &&& (ne.pc == c.pc + 2) == (c.v[vx as int] != c.v[vy as int])
            &&& (ne.pc == c.pc + 2 || ne.pc == c.pc)
            &&& eq.pc + ne.pc == 2 * c.pc + 2
            &&& only_pc_changed(c, eq)
            &&& only_pc_changed(c, ne)
        }),
{
}

// ---------------------------------------------------------------------------
// Keypad instructions.

/// `Ex9E` skips exactly when the key numbered by the value of `Vx` is down,
/// `ExA1` exactly when it is up: both test the same key, and exactly one of
/// them skips.
pub proof fn law_skip_keys(s: Machine, vx: u8)
    requires
        s.wf(),
        vx < 16,
        s.cpu.v[vx as int] < 16,
        s.cpu.pc + 2 <= u16::MAX,
    ensures
        ({
            let key = s.cpu.v[vx as int] as int;
            let down = input_next(s, Input::SkipPressed { vx });
            let up = input_next(s, Input::SkipNotPressed { vx });
            &&& (down.pc == s.cpu.pc + 2) == s.keys[key]
            &&& (down.pc == s.cpu.pc + 2 || down.pc == s.cpu.pc)
            &&& (up.pc == s.cpu.pc + 2) == !s.keys[key]
            &&& (up.pc == s.cpu.pc + 2 || up.pc == s.cpu.pc)
            &&& down.pc + up.pc == 2 * s.cpu.pc + 2
            &&& only_pc_changed(s.cpu, down)
            &&& only_pc_changed(s.cpu, up)
        }),
{
}

/// After key `key` is pressed, `Fx0A` puts `key` in `Vx` and moves on;
/// while no key is down it only moves the program counter back by two.
pub proof fn law_wait_key(s: Machine, vx: u8, key: u8)
    requires
        s.wf(),
        vx < 16,
        key < 16,
    ensures
        ({
            let n = input_next(with_key_down(s, key), Input::WaitKey { vx });
            n.v[vx as int] == key && only_reg_changed(s.cpu, n, vx as int, false)
        }),
        !any_pressed(s.keys) && s.cpu.pc >= 2 ==> ({
            let n = input_next(s, Input::WaitKey { vx });
            n.pc + 2 == s.cpu.pc && only_pc_changed(s.cpu, n)
        }),
{
    let t = with_key_down(s, key);
    assert(t.keys[key as int]);
}

// ---------------------------------------------------------------------------
// Timers.

/// `Fx07` reads back what `Fx15` set: setting the delay timer from `Vy` and
/// then reading it into `Vx` puts the old `Vy` in `Vx`, whatever the sound
/// timer holds; `Fx18` sets the sound timer; setting one timer leaves the
/// other alone; and a tick takes one off a timer that is above zero.
pub proof fn law_timers(c: CpuState, vx: u8, vy: u8)
    requires
        c.wf(),
        vx < 16,
        vy < 16,
    ensures
        ({
            let set = timers_next(c, Timers::SetDelay { vx: vy });
            let got = timers_next(set, Timers::GetDelay { vx });
            &&& set.delay == c.v[vy as int]
            &&& (CpuState { delay: set.delay, ..c }) == set
            &&& got.v[vx as int] == c.v[vy as int]
            &&& only_reg_changed(set, got, vx as int, false)
        }),
        ({
            let set = timers_next(c, Timers::SetSound { vx: vy });
            &&& set.sound == c.v[vy as int]
            &&& (CpuState { sound: set.sound, ..c }) == set
        }),
        c.v[vy as int] > 0 ==> tick(c.v[vy as int]) + 1 == c.v[vy as int],
        tick(0) == 0,
{
}

// ---------------------------------------------------------------------------
// The index register.

/// `Annn` points `I` at `nnn`, `Fx1E` moves it on by `Vx`, and `Fx29` points
/// it at the glyph of digit `Vx`, five bytes per glyph; none of them touches
/// anything but `I`.
pub proof fn law_index(s: Machine, vx: u8, nnn: u16)
    requires
        s.wf(),
        vx < 16,
    ensures
        memory_next(s, MemoryOps::SetI { nnn }).cpu.i == nnn,
        s.cpu.i + s.cpu.v[vx as int] <= u16::MAX ==> memory_next(s, MemoryOps::AddI { vx }).cpu.i
            - s.cpu.i == s.cpu.v[vx as int],
        memory_next(s, MemoryOps::LoadSprite { vx }).cpu.i == 5 * s.cpu.v[vx as int],
        ({
            let a = memory_next(s, MemoryOps::SetI { nnn });
            let b = memory_next(s, MemoryOps::AddI { vx });
            let d = memory_next(s, MemoryOps::LoadSprite { vx });
            &&& (Machine { cpu: CpuState { i: a.cpu.i, ..s.cpu }, ..s }) == a
            &&& (Machine { cpu: CpuState { i: b.cpu.i, ..s.cpu }, ..s }) == b
            &&& (Machine { cpu: CpuState { i: d.cpu.i, ..s.cpu }, ..s }) == d
        }),
{
}

// ---------------------------------------------------------------------------
// Memory.

/// `Fx33` writes the three decimal digits of `Vx` at `I`, `I + 1`, `I + 2`,
/// hundreds first, and changes nothing else.
pub proof fn law_bcd(s: Machine, vx: u8)
    requires
        s.wf(),
        vx < 16,
        s.cpu.i + 2 < MEMORY_SIZE,
    ensures
        ({
            let n = memory_next(s, MemoryOps::StoreBcd { vx });
            let i = s.cpu.i as int;
            let m = n.mem;
            &&& m.len() == s.mem.len()
            &&& m[i] <= 2 && m[i + 1] < 10 && m[i + 2] < 10
            &&& 100 * m[i] + 10 * m[i + 1] + m[i + 2] == s.cpu.v[vx as int]
            &&& forall|a: int|
                0 <= a < MEMORY_SIZE && !(i <= a < i + 3) ==> #[trigger] m[a] == s.mem[a]
            &&& (Machine { mem: m, ..s }) == n
        }),
{
}

/// `Fx55` copies `V0..=Vx` to memory from `I` on, leaving every other byte
/// and the processor as they were.
pub proof fn law_store_regs(s: Machine, vx: u8)
    requires
        s.wf(),
        vx < 16,
        s.cpu.i + vx < MEMORY_SIZE,
    ensures
        ({
            let n = memory_next(s, MemoryOps::StoreRegs { vx });
            let i = s.cpu.i as int;
            &&& n.mem.len() == s.mem.len()
            &&& forall|k: int| 0 <= k <= vx ==> #[trigger] n.mem[i + k] == s.cpu.v[k]
            &&& forall|a: int|
                0 <= a < MEMORY_SIZE && !(i <= a <= i + vx) ==> #[trigger] n.mem[a] == s.mem[a]
            &&& (Machine { mem: n.mem, ..s }) == n
        }),
{
    let n = memory_next(s, MemoryOps::StoreRegs { vx });
    let i = s.cpu.i as int;
    let data = s.cpu.v.take(vx + 1);
    lemma_with_bytes_index(s.mem, i, data, 0);
    assert forall|k: int| 0 <= k <= vx implies #[trigger] n.mem[i + k] == s.cpu.v[k] by {
        lemma_with_bytes_index(s.mem, i, data, i + k);
    }
    assert forall|a: int| 0 <= a < MEMORY_SIZE && !(i <= a <= i + vx) implies #[trigger] n.mem[a]
        == s.mem[a] by {
        lemma_with_bytes_index(s.mem, i, data, a);
    }
}

/// `Fx65` loads `V0..=Vx` from memory at `I` on, leaving the higher
/// registers, memory and everything else as they were.
pub proof fn law_read_regs(s: Machine, vx: u8)
    requires
        s.wf(),
        vx < 16,
        s.cpu.i + vx < MEMORY_SIZE,
    ensures
        ({
            let n = memory_next(s, MemoryOps::ReadRegs { vx });
            let i = s.cpu.i as int;
            &&& n.cpu.v.len() == 16
            &&& forall|k: int| 0 <= k <= vx ==> #[trigger] n.cpu.v[k] == s.mem[i + k]
            &&& forall|k: int| vx < k < 16 ==> #[trigger] n.cpu.v[k] == s.cpu.v[k]
            &&& (Machine { cpu: CpuState { v: n.cpu.v, ..s.cpu }, ..s }) == n
        }),
{
}

// ---------------------------------------------------------------------------
// The screen.

/// A sprite byte drawn at a screen column `x` lights, in its row, pixel
/// `x + c` exactly when pixel `c` of the byte is set, and no pixel outside
/// the eight columns from `x` on.
pub proof fn law_sprite_pixels(b: u8, x: usize, col: int)
    requires
        x < WIDTH,
        0 <= col < WIDTH,
    ensures
        pixel_lit(sprite_bits(b, x), col) == (x <= col < x + 8 && sprite_pixel(b, col - x)),
{
    let xx = x as u64;
    let cc = col as u64;
    let t = (63 - col) as u64;
    let e: u64 = if x <= col < x + 8 {
        (7 - (col - x)) as u64
    } else {
        0
    };
    assert(signed_byte(x) == x);
    if x <= col < x + 8 {
        let e8 = (7 - (col - x)) as u8;
        assert(e8 as u64 == e);
        assert(((b >> e8) & 1u8 == 1u8) == (((b as u64) >> e) & 1u64 == 1u64)) by (bit_vector)
            requires
                e8 as u64 == e,
        ;
    }
    if x <= 55 {
        let sh = (56 - x) as u64;
        assert(sprite_bits(b, x) == (b as u64) << sh);
        assert(((((b as u64) << sh) >> t) & 1u64 == 1u64) == (xx <= cc && cc < xx + 8 && ((b as u64)
            >> e) & 1u64 == 1u64)) by (bit_vector)
            requires
                xx <= 55,
                cc < 64,
                sh == 56 - xx,
                t == 63 - cc,
                xx <= cc && cc < xx + 8 ==> e == 7 + xx - cc,
        ;
    } else {
        let sh = (x - 56) as u64;
        assert(sprite_bits(b, x) == (b as u64) >> sh);
        assert(((((b as u64) >> sh) >> t) & 1u64 == 1u64) == (xx <= cc && cc < xx + 8 && ((b as u64)
            >> e) & 1u64 == 1u64)) by (bit_vector)
            requires
                56 <= xx < 64,
                cc < 64,
                sh == xx - 56,
                t == 63 - cc,
                xx <= cc && cc < xx + 8 ==> e == 7 + xx - cc,
        ;
    }
}

/// `Dxyn` at a screen column flips, in each of the sprite's rows on the
/// screen, exactly the pixels where the sprite has a set pixel; every other
/// pixel keeps its state.
pub proof fn law_draw_pixels(s: Machine, vx: u8, vy: u8, n: u8, row: int, col: int)
    requires
        s.wf(),
        graphics_ok(s, Graphics::Draw { vx, vy, n }),
        s.cpu.v[vx as int] < WIDTH,
        0 <= row < HEIGHT,
        0 <= col < WIDTH,
    ensures
        ({
            let x = s.cpu.v[vx as int] as int;
            let y = s.cpu.v[vy as int] as int;
            let sprite = s.mem.subrange(s.cpu.i as int, s.cpu.i + n);
            let after = graphics_next(s, Graphics::Draw { vx, vy, n }).screen;
            pixel_lit(after[row], col) == (pixel_lit(s.screen[row], col) != (y <= row < y + n
                && x <= col < x + 8 && sprite_pixel(sprite[row - y], col - x)))
        }),
{
    let x = s.cpu.v[vx as int] as usize;
    let y = s.cpu.v[vy as int] as int;
    let sprite = s.mem.subrange(s.cpu.i as int, s.cpu.i + n);
    let a = s.screen[row];
    let sh = (63 - col) as u64;
    if y <= row < y + n {
        let k = sprite_bits(sprite[row - y], x);
        law_sprite_pixels(sprite[row - y], x, col);
        assert((((a ^ k) >> sh) & 1u64 == 1u64) == (((a >> sh) & 1u64 == 1u64) != ((k >> sh) & 1u64
            == 1u64))) by (bit_vector);
    }
}

/// `00E0` leaves every pixel dark, and the rendered frame all dark.
pub proof fn law_clear(s: Machine)
    requires
        s.wf(),
    ensures
        ({
            let after = graphics_next(s, Graphics::Clear).screen;
            &&& after.len() == HEIGHT
            &&& forall|r: int, c: int|
                0 <= r < HEIGHT && 0 <= c < WIDTH ==> !#[trigger] pixel_lit(after[r], c)
            &&& forall|p: int| 0 <= p < PIXELS ==> #[trigger] frame_of(after)[p] == DARK
        }),
{
    let after = graphics_next(s, Graphics::Clear).screen;
    assert forall|r: int, c: int| 0 <= r < HEIGHT && 0 <= c < WIDTH implies !#[trigger] pixel_lit(
        after[r],
        c,
    ) by {
        let sh = (63 - c) as u64;
        assert((0u64 >> sh) & 1u64 == 0u64) by (bit_vector);
    }
    lemma_dark_frame();
}

/// The rendered frame lists the screen row by row, left to right: the colour
/// at `64 * r + c` is `LIT` exactly when pixel `c` of row `r` is on.
pub proof fn law_frame_pixels(rows: Seq<u64>, r: int, c: int)
    requires
        rows.len() == HEIGHT,
        0 <= r < HEIGHT,
        0 <= c < WIDTH,
    ensures
        frame_of(rows).len() == PIXELS,
        frame_of(rows)[64 * r + c] == (if pixel_lit(rows[r], c) {
            LIT
        } else {
            DARK
        }),
        LIT != DARK,
{
    lemma_fundamental_div_mod_converse(64 * r + c, 64, r, c);
}

// ---------------------------------------------------------------------------
// Setting all keys at once.

proof fn lemma_highest_down(down: Seq<bool>, n: int)
    requires
        0 <= n <= down.len(),
        n <= 256,
    ensures
        highest_down(down, n) matches Some(h) ==> h < n && down[h as int] && forall|j: int|
            h < j < n ==> !#[trigger] down[j],
        highest_down(down, n) is None ==> forall|j: int| 0 <= j < n ==> !#[trigger] down[j],
    decreases n,
{
    if n > 0 {
        lemma_highest_down(down, n - 1);
    }
}

/// After setting all keys at once, exactly the keys marked in `down` are
/// held, and the recorded key is the highest of them: it is held, and no
/// higher key is; with none held, the record stays as it was.
pub proof fn law_set_keys(s: Machine, down: Seq<bool>)
    requires
        s.wf(),
        down.len() == 16,
    ensures
        ({
            let n = with_keys(s, down);
            &&& n.keys == down
            &&& any_pressed(down) ==> (n.last_key matches Some(h) && h < 16 && down[h as int]
                && forall|j: int| h < j < 16 ==> !#[trigger] down[j])
            &&& !any_pressed(down) ==> n.last_key == s.last_key
            &&& (Machine { keys: n.keys, last_key: n.last_key, ..s }) == n
        }),
{
    lemma_highest_down(down, 16);
    if any_pressed(down) {
        let k = choose|k: int| 0 <= k < 16 && #[trigger] down[k];
        assert(down[k]);
    }
}

} // verus!
