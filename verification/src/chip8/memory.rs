use vstd::prelude::*;

verus! {

/// Bytes of addressable memory.
pub const MEMORY_SIZE: usize = 4096;

/// Address at which programs are loaded.
pub const PROGRAM_START: usize = 0x200;

/// Bytes of the built-in font: sixteen hexadecimal digits, five rows each.
pub const FONT_SIZE: usize = 80;

/// The built-in font. Digit `d` starts at address `5 * d`; each row is one
/// byte whose four high bits are the pixels.
pub open spec fn font() -> Seq<u8> {
    seq![
        0xF0u8, 0x90, 0x90, 0x90, 0xF0,  // 0
        0x20, 0x60, 0x20, 0x20, 0x70,  // 1
        0xF0, 0x10, 0xF0, 0x80, 0xF0,  // 2
        0xF0, 0x10, 0xF0, 0x10, 0xF0,  // 3
        0x90, 0x90, 0xF0, 0x10, 0x10,  // 4
        0xF0, 0x80, 0xF0, 0x10, 0xF0,  // 5
        0xF0, 0x80, 0xF0, 0x90, 0xF0,  // 6
        0xF0, 0x10, 0x20, 0x40, 0x40,  // 7
        0xF0, 0x90, 0xF0, 0x90, 0xF0,  // 8
        0xF0, 0x90, 0xF0, 0x10, 0xF0,  // 9
        0xF0, 0x90, 0xF0, 0x90, 0x90,  // A
        0xE0, 0x90, 0xE0, 0x90, 0xE0,  // B
        0xF0, 0x80, 0x80, 0x80, 0xF0,  // C
        0xE0, 0x90, 0x90, 0x90, 0xE0,  // D
        0xF0, 0x80, 0xF0, 0x80, 0xF0,  // E
        0xF0, 0x80, 0xF0, 0x80, 0x80,  // F
    ]
}

/// Memory as it is at power-on: the font at address 0, zeros elsewhere.
pub open spec fn initial_memory() -> Seq<u8> {
    font() + Seq::new((MEMORY_SIZE - FONT_SIZE) as nat, |i: int| 0u8)
}

/// `mem` with `data` written from address `addr` on.
pub open spec fn with_bytes(mem: Seq<u8>, addr: int, data: Seq<u8>) -> Seq<u8> {
    mem.take(addr) + data + mem.skip(addr + data.len())
}

/// The big-endian 16-bit word at `addr`.
pub open spec fn word_at(mem: Seq<u8>, addr: int) -> u16 {
    (mem[addr] * 256 + mem[addr + 1]) as u16
}

/// Reading `with_bytes`: addresses covered by `data` hold its bytes, the
/// others keep theirs; the length does not change.
pub proof fn lemma_with_bytes_index(mem: Seq<u8>, addr: int, data: Seq<u8>, j: int)
    requires
        0 <= addr,
        addr + data.len() <= mem.len(),
        0 <= j < mem.len(),
    ensures
        with_bytes(mem, addr, data).len() == mem.len(),
        with_bytes(mem, addr, data)[j] == if addr <= j < addr + data.len() {
            data[j - addr]
        } else {
            mem[j]
        },
{
}

/// The 4 KiB address space of the machine.
pub struct Memory {
    ram: [u8; MEMORY_SIZE],
}

impl Memory {
    /// The byte at `addr`.
    pub closed spec fn byte(&self, addr: int) -> u8 {
        self.ram@[addr]
    }

    /// The bytes of memory, address 0 first.
    pub open spec fn bytes(&self) -> Seq<u8> {
        Seq::new(MEMORY_SIZE as nat, |a: int| self.byte(a))
    }

    /// Memory at power-on: the font at address 0, zeros elsewhere.
    pub fn new() -> (r: Self)
        ensures
            r.bytes() == initial_memory(),
    {
        let glyphs: [u8; FONT_SIZE] = [
            0xF0, 0x90, 0x90, 0x90, 0xF0,  // 0
            0x20, 0x60, 0x20, 0x20, 0x70,  // 1
            0xF0, 0x10, 0xF0, 0x80, 0xF0,  // 2
            0xF0, 0x10, 0xF0, 0x10, 0xF0,  // 3
            0x90, 0x90, 0xF0, 0x10, 0x10,  // 4
            0xF0, 0x80, 0xF0, 0x10, 0xF0,  // 5
            0xF0, 0x80, 0xF0, 0x90, 0xF0,  // 6
            0xF0, 0x10, 0x20, 0x40, 0x40,  // 7
            0xF0, 0x90, 0xF0, 0x90, 0xF0,  // 8
            0xF0, 0x90, 0xF0, 0x10, 0xF0,  // 9
            0xF0, 0x90, 0xF0, 0x90, 0x90,  // A
            0xE0, 0x90, 0xE0, 0x90, 0xE0,  // B
            0xF0, 0x80, 0x80, 0x80, 0xF0,  // C
            0xE0, 0x90, 0x90, 0x90, 0xE0,  // D
            0xF0, 0x80, 0xF0, 0x80, 0xF0,  // E
            0xF0, 0x80, 0xF0, 0x80, 0x80,  // F
        ];
        assert(glyphs@ =~= font());
        let mut ram = [0u8; MEMORY_SIZE];
        let mut i: usize = 0;
        while i < FONT_SIZE
            invariant
                i <= FONT_SIZE,
                glyphs@ == font(),
                ram@.len() == MEMORY_SIZE,
                forall|j: int| 0 <= j < i ==> #[trigger] ram@[j] == font()[j],
                forall|j: int| i <= j < MEMORY_SIZE ==> #[trigger] ram@[j] == 0u8,
            decreases FONT_SIZE - i,
        {
            ram[i] = glyphs[i];
            i = i + 1;
        }
        let r = Self { ram };
        assert(r.bytes() =~= initial_memory());
        r
    }

    /// Copies `rom` into memory from `PROGRAM_START` on; the rest of memory
    /// is left as it was.
    pub fn load_memory(&mut self, rom: &[u8])
        requires
            rom@.len() <= MEMORY_SIZE - PROGRAM_START,
        ensures
            final(self).bytes() == with_bytes(old(self).bytes(), PROGRAM_START as int, rom@),
    {
        self.write_bytes(PROGRAM_START, rom);
    }

    /// The byte at `addr`.
    pub fn read(&self, addr: usize) -> (r: u8)
        requires
            addr < MEMORY_SIZE,
        ensures
            r == self.bytes()[addr as int],
    {
        self.ram[addr]
    }

    /// Stores `value` at `addr`.
    pub fn write(&mut self, addr: usize, value: u8)
        requires
            addr < MEMORY_SIZE,
        ensures
            final(self).bytes() == old(self).bytes().update(addr as int, value),
    {
        self.ram[addr] = value;
    }

    /// The big-endian word made of the bytes at `addr` and `addr + 1`.
    pub fn read_word(&self, addr: usize) -> (r: u16)
        requires
            addr + 1 < MEMORY_SIZE,
        ensures
            r == word_at(self.bytes(), addr as int),
    {
        let hi = self.ram[addr];
        let lo = self.ram[addr + 1];
        let r = ((hi as u16) << 8u16) | (lo as u16);
        assert(((hi as u16) << 8u16) | (lo as u16) == hi * 256 + lo) by (bit_vector);
        r
    }

    /// A copy of the `n` bytes from `addr` on.
    pub fn read_bytes(&self, addr: usize, n: usize) -> (r: Vec<u8>)
        requires
            addr + n <= MEMORY_SIZE,
        ensures
            r@ == self.bytes().subrange(addr as int, addr + n),
    {
        let mut r: Vec<u8> = Vec::new();
        let mut k: usize = 0;
        while k < n
            invariant
                k <= n,
                addr + n <= MEMORY_SIZE,
                r@ == self.bytes().subrange(addr as int, addr + k),
            decreases n - k,
        {
            r.push(self.ram[addr + k]);
            k = k + 1;
            assert(r@ =~= self.bytes().subrange(addr as int, addr + k));
        }
        r
    }

    /// Copies `data` into memory from `addr` on.
    pub fn write_bytes(&mut self, addr: usize, data: &[u8])
        requires
            addr + data@.len() <= MEMORY_SIZE,
        ensures
            final(self).bytes() == with_bytes(old(self).bytes(), addr as int, data@),
    {
        let len = data.len();
        let mut k: usize = 0;
        while k < len
            invariant
                k <= len,
                len == data@.len(),
                addr + len <= MEMORY_SIZE,
                self.ram@.len() == MEMORY_SIZE,
                forall|j: int|
                    0 <= j < MEMORY_SIZE ==> #[trigger] self.ram@[j] == if addr <= j < addr + k {
                        data@[j - addr]
                    } else {
                        old(self).ram@[j]
                    },
            decreases len - k,
        {
            self.ram[addr + k] = data[k];
            k = k + 1;
        }
        assert(self.bytes() =~= with_bytes(old(self).bytes(), addr as int, data@));
    }
}

} // verus!
