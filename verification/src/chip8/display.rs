use vstd::prelude::*;

verus! {

/// Columns of the screen.
pub const WIDTH: usize = 64;

/// Rows of the screen.
pub const HEIGHT: usize = 32;

/// Pixels in a rendered frame.
pub const PIXELS: usize = 2048;

/// Colour of a lit pixel in a rendered frame.
pub const LIT: u32 = 0xFFFFFF;

/// Colour of a dark pixel in a rendered frame.
pub const DARK: u32 = 0x000000;

/// `x` reduced to a byte and read as a signed byte.
pub open spec fn signed_byte(x: usize) -> int {
    let b = x % 256;
    if b < 128 {
        b as int
    } else {
        b - 256
    }
}

/// How far left (positive) or right (negative) a sprite byte is moved to put
/// its leftmost pixel at column `x`: `WIDTH - x - 8`, computed on signed bytes.
pub open spec fn draw_shift(x: usize) -> int {
    56 - signed_byte(x)
}

/// Whether a sprite can be placed at column `x`: the signed-byte arithmetic of
/// `draw_shift` stays in range and the shift is shorter than a row.
pub open spec fn shift_ok(x: usize) -> bool {
    &&& 64 - signed_byte(x) <= 127
    &&& -64 < draw_shift(x) < 64
}

/// The row mask of a sprite byte placed at column `x` (bit 63 is column 0).
pub open spec fn sprite_bits(sprite: u8, x: usize) -> u64 {
    let s = draw_shift(x);
    if s > 0 {
        (sprite as u64) << (s as u64)
    } else {
        (sprite as u64) >> ((-s) as u64)
    }
}

/// Whether a sprite of `len` rows can be drawn at `(x, y)`.
pub open spec fn drawing_ok(len: nat, x: usize, y: usize) -> bool {
    len == 0 || y >= HEIGHT || shift_ok(x)
}

/// The screen rows after XOR-ing `sprite` onto them at `(x, y)`: row `y + k`
/// is flipped by the mask of sprite byte `k`; rows below the screen are not drawn.
pub open spec fn drawn_rows(rows: Seq<u64>, sprite: Seq<u8>, x: usize, y: usize) -> Seq<u64> {
    Seq::new(
        rows.len(),
        |r: int|
            if y <= r < y + sprite.len() {
                rows[r] ^ sprite_bits(sprite[r - y], x)
            } else {
                rows[r]
            },
    )
}

/// Whether drawing `sprite` at `(x, y)` turns off a pixel that was lit.
pub open spec fn draw_collides(rows: Seq<u64>, sprite: Seq<u8>, x: usize, y: usize) -> bool {
    exists|r: int|
        0 <= r < rows.len() && y <= r < y + sprite.len() && (sprite_bits(sprite[r - y], x)
            & #[trigger] rows[r]) != 0
}

/// Whether column `col` of a row is lit.
pub open spec fn pixel_lit(row: u64, col: int) -> bool {
    (row >> ((63 - col) as u64)) & 1u64 == 1u64
}

/// The frame of `WIDTH * HEIGHT` colours, row by row, that a screen shows.
pub open spec fn frame_of(rows: Seq<u64>) -> Seq<u32> {
    Seq::new(
        PIXELS as nat,
        |p: int|
            if pixel_lit(rows[p / 64], p % 64) {
                LIT
            } else {
                DARK
            },
    )
}

/// A screen with every pixel off.
pub open spec fn dark_screen() -> Seq<u64> {
    Seq::new(HEIGHT as nat, |r: int| 0u64)
}

/// Drawing the same sprite twice at the same place leaves the screen as it
/// was.
pub proof fn lemma_draw_twice(rows: Seq<u64>, sprite: Seq<u8>, x: usize, y: usize)
    ensures
        drawn_rows(drawn_rows(rows, sprite, x, y), sprite, x, y) == rows,
{
    let once = drawn_rows(rows, sprite, x, y);
    let twice = drawn_rows(once, sprite, x, y);
    assert forall|r: int| 0 <= r < rows.len() implies #[trigger] twice[r] == rows[r] by {
        if y <= r < y + sprite.len() {
            let a = rows[r];
            let m = sprite_bits(sprite[r - y], x);
            assert((a ^ m) ^ m == a) by (bit_vector);
        }
    }
    assert(twice =~= rows);
}

/// Drawing on a dark screen turns no pixel off.
pub proof fn lemma_draw_on_dark(sprite: Seq<u8>, x: usize, y: usize)
    ensures
        !draw_collides(dark_screen(), sprite, x, y),
{
    assert forall|r: int| 0 <= r < HEIGHT && y <= r < y + sprite.len() implies (sprite_bits(
        sprite[r - y],
        x,
    ) & #[trigger] dark_screen()[r]) == 0 by {
        let m = sprite_bits(sprite[r - y], x);
        assert(m & 0u64 == 0) by (bit_vector);
    }
}

/// A dark screen renders as dark pixels only.
pub proof fn lemma_dark_frame()
    ensures
        frame_of(dark_screen()) == Seq::new(PIXELS as nat, |p: int| DARK),
{
    assert forall|p: int| 0 <= p < PIXELS implies #[trigger] frame_of(dark_screen())[p] == DARK by {
        let sh = (63 - p % 64) as u64;
        assert((0u64 >> sh) & 1u64 == 0u64) by (bit_vector);
        assert(0 <= p / 64 < 32);
    }
    assert(frame_of(dark_screen()) =~= Seq::new(PIXELS as nat, |p: int| DARK));
}

/// Whether a sprite of `len` rows can be drawn at `(x, y)`.
pub fn can_draw(len: usize, x: usize, y: usize) -> (r: bool)
    ensures
        r == drawing_ok(len as nat, x, y),
{
    if len == 0 || y >= HEIGHT {
        return true;
    }
    let b: u8 = (x % 256) as u8;
    let xs: i16 = if b < 128 {
        b as i16
    } else {
        b as i16 - 256
    };
    let shift: i16 = 56 - xs;
    64 - xs <= 127 && -64 < shift && shift < 64
}

/// Whether pixel `c` of a sprite byte is set (pixel 0 is the leftmost, the
/// byte's high bit).
pub open spec fn sprite_pixel(b: u8, c: int) -> bool {
    (b >> ((7 - c) as u8)) & 1u8 == 1u8
}

/// Whether some set pixel of `sprite` lands on the screen when the sprite is
/// drawn with its top-left corner at `(x, y)`.
pub open spec fn sprite_visible(sprite: Seq<u8>, x: usize, y: usize) -> bool {
    exists|r: int, c: int|
        0 <= r < sprite.len() && 0 <= c < 8 && y + r < HEIGHT && x + c < WIDTH
            && #[trigger] sprite_pixel(sprite[r], c)
}

proof fn lemma_byte_pixels(b: u8)
    ensures
        b != 0 <==> (sprite_pixel(b, 0) || sprite_pixel(b, 1) || sprite_pixel(b, 2)
            || sprite_pixel(b, 3) || sprite_pixel(b, 4) || sprite_pixel(b, 5) || sprite_pixel(b, 6)
            || sprite_pixel(b, 7)),
{
    assert(b != 0 <==> ((b >> 7u8) & 1u8 == 1u8 || (b >> 6u8) & 1u8 == 1u8 || (b >> 5u8) & 1u8
        == 1u8 || (b >> 4u8) & 1u8 == 1u8 || (b >> 3u8) & 1u8 == 1u8 || (b >> 2u8) & 1u8 == 1u8
        || (b >> 1u8) & 1u8 == 1u8 || (b >> 0u8) & 1u8 == 1u8)) by (bit_vector);
}

proof fn lemma_shifted_right_pixels(b: u8, t: u64)
    requires
        t <= 7,
    ensures
        ((b as u64) >> t) != 0 <==> ((sprite_pixel(b, 0) && t <= 7) || (sprite_pixel(b, 1) && t
            <= 6) || (sprite_pixel(b, 2) && t <= 5) || (sprite_pixel(b, 3) && t <= 4) || (
        sprite_pixel(b, 4) && t <= 3) || (sprite_pixel(b, 5) && t <= 2) || (sprite_pixel(b, 6)
            && t <= 1) || (sprite_pixel(b, 7) && t == 0)),
{
    assert(((b as u64) >> t) != 0 <==> (((b >> 7u8) & 1u8 == 1u8 && t <= 7) || ((b >> 6u8) & 1u8
        == 1u8 && t <= 6) || ((b >> 5u8) & 1u8 == 1u8 && t <= 5) || ((b >> 4u8) & 1u8 == 1u8 && t
        <= 4) || ((b >> 3u8) & 1u8 == 1u8 && t <= 3) || ((b >> 2u8) & 1u8 == 1u8 && t <= 2) || ((b
        >> 1u8) & 1u8 == 1u8 && t <= 1) || ((b >> 0u8) & 1u8 == 1u8 && t == 0))) by (bit_vector)
        requires
            t <= 7,
    ;
}

/// On screen columns, the mask of a sprite byte is non-zero exactly when one
/// of its set pixels lands on the screen.
pub proof fn lemma_sprite_bits_visible(b: u8, x: usize)
    requires
        x < WIDTH,
    ensures
        sprite_bits(b, x) != 0 <==> exists|c: int|
            0 <= c < 8 && x + c < WIDTH && #[trigger] sprite_pixel(b, c),
{
    lemma_byte_pixels(b);
    assert(signed_byte(x) == x);
    if x <= 55 {
        let sh = (56 - x) as u64;
        assert(sprite_bits(b, x) == (b as u64) << sh);
        assert(((b as u64) << sh) != 0 <==> b != 0) by (bit_vector)
            requires
                sh <= 56,
        ;
        if b != 0 {
            if sprite_pixel(b, 0) {
                assert(0 <= 0 < 8 && x + 0 < WIDTH && sprite_pixel(b, 0));
            } else if sprite_pixel(b, 1) {
                assert(0 <= 1 < 8 && x + 1 < WIDTH && sprite_pixel(b, 1));
            } else if sprite_pixel(b, 2) {
                assert(0 <= 2 < 8 && x + 2 < WIDTH && sprite_pixel(b, 2));
            } else if sprite_pixel(b, 3) {
                assert(0 <= 3 < 8 && x + 3 < WIDTH && sprite_pixel(b, 3));
            } else if sprite_pixel(b, 4) {
                assert(0 <= 4 < 8 && x + 4 < WIDTH && sprite_pixel(b, 4));
            } else if sprite_pixel(b, 5) {
                assert(0 <= 5 < 8 && x + 5 < WIDTH && sprite_pixel(b, 5));
            } else if sprite_pixel(b, 6) {
                assert(0 <= 6 < 8 && x + 6 < WIDTH && sprite_pixel(b, 6));
            } else {
                assert(0 <= 7 < 8 && x + 7 < WIDTH && sprite_pixel(b, 7));
            }
        } else {
            assert forall|c: int| 0 <= c < 8 && x + c < WIDTH implies !#[trigger] sprite_pixel(
                b,
                c,
            ) by {
                assert(c == 0 || c == 1 || c == 2 || c == 3 || c == 4 || c == 5 || c == 6 || c
                    == 7);
            }
        }
    } else {
        let t = (x - 56) as u64;
        assert(sprite_bits(b, x) == (b as u64) >> t);
        lemma_shifted_right_pixels(b, t);
        if sprite_bits(b, x) != 0 {
            if sprite_pixel(b, 0) && t <= 7 {
                assert(0 <= 0 < 8 && x + 0 < WIDTH && sprite_pixel(b, 0));
            } else if sprite_pixel(b, 1) && t <= 6 {
                assert(0 <= 1 < 8 && x + 1 < WIDTH && sprite_pixel(b, 1));
            } else if sprite_pixel(b, 2) && t <= 5 {
                assert(0 <= 2 < 8 && x + 2 < WIDTH && sprite_pixel(b, 2));
            } else if sprite_pixel(b, 3) && t <= 4 {
                assert(0 <= 3 < 8 && x + 3 < WIDTH && sprite_pixel(b, 3));
            } else if sprite_pixel(b, 4) && t <= 3 {
                assert(0 <= 4 < 8 && x + 4 < WIDTH && sprite_pixel(b, 4));
            } else if sprite_pixel(b, 5) && t <= 2 {
                assert(0 <= 5 < 8 && x + 5 < WIDTH && sprite_pixel(b, 5));
            } else if sprite_pixel(b, 6) && t <= 1 {
                assert(0 <= 6 < 8 && x + 6 < WIDTH && sprite_pixel(b, 6));
            } else {
                assert(0 <= 7 < 8 && x + 7 < WIDTH && sprite_pixel(b, 7));
            }
        } else {
            assert forall|c: int| 0 <= c < 8 && x + c < WIDTH implies !#[trigger] sprite_pixel(
                b,
                c,
            ) by {
                assert(c == 0 || c == 1 || c == 2 || c == 3 || c == 4 || c == 5 || c == 6 || c
                    == 7);
            }
        }
    }
}

/// Drawing a sprite twice at the same on-screen column: one of the two draws
/// reports a collision exactly when a set pixel of the sprite lands on the
/// screen.
pub proof fn lemma_draw_twice_collides(rows: Seq<u64>, sprite: Seq<u8>, x: usize, y: usize)
    requires
        rows.len() == HEIGHT,
        x < WIDTH,
    ensures
        (draw_collides(rows, sprite, x, y) || draw_collides(
            drawn_rows(rows, sprite, x, y),
            sprite,
            x,
            y,
        )) == sprite_visible(sprite, x, y),
{
    let once = drawn_rows(rows, sprite, x, y);
    let c1 = draw_collides(rows, sprite, x, y);
    let c2 = draw_collides(once, sprite, x, y);
    if c1 || c2 {
        let r = if c1 {
            choose|r: int|
                0 <= r < rows.len() && y <= r < y + sprite.len() && (sprite_bits(sprite[r - y], x)
                    & #[trigger] rows[r]) != 0
        } else {
            choose|r: int|
                0 <= r < once.len() && y <= r < y + sprite.len() && (sprite_bits(sprite[r - y], x)
                    & #[trigger] once[r]) != 0
        };
        let k = sprite_bits(sprite[r - y], x);
        let a = rows[r];
        assert(once[r] == a ^ k);
        assert((k & a) != 0 || (k & (a ^ k)) != 0 ==> k != 0) by (bit_vector);
        lemma_sprite_bits_visible(sprite[r - y], x);
        let c = choose|c: int|
            0 <= c < 8 && x + c < WIDTH && #[trigger] sprite_pixel(sprite[r - y], c);
        assert(0 <= r - y < sprite.len() && y + (r - y) < HEIGHT && sprite_pixel(sprite[r - y], c));
    }
    if sprite_visible(sprite, x, y) {
        let (r0, c) = choose|r: int, c: int|
            0 <= r < sprite.len() && 0 <= c < 8 && y + r < HEIGHT && x + c < WIDTH
                && #[trigger] sprite_pixel(sprite[r], c);
        let r = y + r0;
        lemma_sprite_bits_visible(sprite[r0], x);
        let k = sprite_bits(sprite[r - y], x);
        let a = rows[r];
        assert(once[r] == a ^ k);
        assert(k != 0 ==> (k & a) != 0 || (k & (a ^ k)) != 0) by (bit_vector);
        if (k & a) != 0 {
            assert(0 <= r < rows.len() && y <= r < y + sprite.len() && (k & rows[r]) != 0);
        } else {
            assert(0 <= r < once.len() && y <= r < y + sprite.len() && (k & once[r]) != 0);
        }
    }
}

/// The monochrome frame buffer: one 64-bit mask per row, bit 63 being the
/// leftmost column.
pub struct Display {
    display: [u64; HEIGHT],
    high_res: bool,
}

impl Display {
    /// The mask of row `r`.
    pub closed spec fn row(&self, r: int) -> u64 {
        self.display@[r]
    }

    /// The thirty-two row masks, top row first.
    pub open spec fn rows(&self) -> Seq<u64> {
        Seq::new(HEIGHT as nat, |r: int| self.row(r))
    }

    /// The high-resolution flag of the frame buffer.
    pub closed spec fn high_res_flag(&self) -> bool {
        self.high_res
    }

    /// A dark screen in low resolution.
    pub fn new() -> (r: Self)
        ensures
            r.rows() == dark_screen(),
            !r.high_res_flag(),
    {
        let r = Self { display: [0u64; HEIGHT], high_res: false };
        assert(r.rows() =~= dark_screen());
        r
    }

    /// Turns every pixel off.
    pub fn clear(&mut self)
        ensures
            final(self).rows() == dark_screen(),
            final(self).high_res_flag() == old(self).high_res_flag(),
    {
        self.display = [0u64; HEIGHT];
        assert(self.rows() =~= dark_screen());
    }

    /// XORs the sprite bytes `bit_mask` onto the screen with its top-left
    /// corner at `(x, y)`, one byte per row, and tells whether a lit pixel was
    /// turned off. Rows past the bottom edge are left out.
    pub fn drawing(&mut self, bit_mask: &[u8], x: usize, y: usize) -> (collision: bool)
        requires
            drawing_ok(bit_mask@.len(), x, y),
        ensures
            final(self).rows() == drawn_rows(old(self).rows(), bit_mask@, x, y),
            collision == draw_collides(old(self).rows(), bit_mask@, x, y),
            final(self).high_res_flag() == old(self).high_res_flag(),
    {
        let ghost old_rows = self.display@;
        assert(old(self).rows() =~= old_rows);
        let mut collision: bool = false;
        let len = bit_mask.len();
        let mut idx: usize = 0;
        while idx < len && idx + y < HEIGHT
            invariant
                idx <= len,
                len == bit_mask@.len(),
                idx == 0 || y + idx <= HEIGHT,
                drawing_ok(len as nat, x, y),
                self.high_res == old(self).high_res,
                old_rows == old(self).display@,
                self.display@ == Seq::new(
                    HEIGHT as nat,
                    |r: int|
                        if y <= r < y + idx {
                            old_rows[r] ^ sprite_bits(bit_mask@[r - y], x)
                        } else {
                            old_rows[r]
                        },
                ),
                collision == exists|r: int|
                    0 <= r < HEIGHT && y <= r < y + idx && (sprite_bits(bit_mask@[r - y], x)
                        & #[trigger] old_rows[r]) != 0,
            decreases len - idx,
        {
            let sprite = bit_mask[idx];
            let b: u8 = (x % 256) as u8;
            let xs: i16 = if b < 128 {
                b as i16
            } else {
                b as i16 - 256
            };
            assert(xs == signed_byte(x));
            let shift: i16 = 56 - xs;
            let extended: u64 = if shift > 0 {
                (sprite as u64) << (shift as u64)
            } else {
                (sprite as u64) >> ((-shift) as u64)
            };
            assert(extended == sprite_bits(sprite, x));
            let row = idx + y;
            let ghost before = self.display@;
            assert(before[row as int] == old_rows[row as int]);
            let hit = (extended & self.display[row]) > 0;
            collision = collision || hit;
            self.display[row] = self.display[row] ^ extended;
            proof {
                let ghost r0 = row as int;
                assert(bit_mask@[r0 - y] == sprite);
                assert(((extended & old_rows[r0]) > 0) == ((extended & old_rows[r0]) != 0));
                if collision {
                    if (extended & old_rows[r0]) == 0 {
                        let w = choose|r: int|
                            0 <= r < HEIGHT && y <= r < y + idx && (sprite_bits(
                                bit_mask@[r - y],
                                x,
                            ) & #[trigger] old_rows[r]) != 0;
                        assert(0 <= w < HEIGHT && y <= w < y + idx + 1 && (sprite_bits(
                            bit_mask@[w - y],
                            x,
                        ) & old_rows[w]) != 0);
                    } else {
                        assert(0 <= r0 < HEIGHT && y <= r0 < y + idx + 1 && (sprite_bits(
                            bit_mask@[r0 - y],
                            x,
                        ) & old_rows[r0]) != 0);
                    }
                }
            }
            idx = idx + 1;
            assert(self.display@ =~= Seq::new(
                HEIGHT as nat,
                |r: int|
                    if y <= r < y + idx {
                        old_rows[r] ^ sprite_bits(bit_mask@[r - y], x)
                    } else {
                        old_rows[r]
                    },
            ));
        }
        assert(self.display@ =~= drawn_rows(old_rows, bit_mask@, x, y));
        assert(collision == draw_collides(old_rows, bit_mask@, x, y)) by {
            if draw_collides(old_rows, bit_mask@, x, y) {
                let w = choose|r: int|
                    0 <= r < old_rows.len() && y <= r < y + bit_mask@.len() && (sprite_bits(
                        bit_mask@[r - y],
                        x,
                    ) & #[trigger] old_rows[r]) != 0;
                assert(0 <= w < HEIGHT && y <= w < y + idx);
            }
        }
        collision
    }

    /// The screen as `WIDTH * HEIGHT` colours, row by row: `LIT` where a pixel
    /// is on, `DARK` where it is off.
    pub fn render(&self) -> (result: [u32; PIXELS])
        ensures
            result@ == frame_of(self.rows()),
    {
        let mut result = [0u32; PIXELS];
        let mut row: usize = 0;
        while row < HEIGHT
            invariant
                row <= HEIGHT,
                result@.len() == PIXELS,
                forall|p: int|
                    0 <= p < row * 64 ==> #[trigger] result@[p] == frame_of(self.rows())[p],
            decreases HEIGHT - row,
        {
            let line = self.display[row];
            let mut col: usize = 0;
            while col < WIDTH
                invariant
                    row < HEIGHT,
                    col <= WIDTH,
                    line == self.rows()[row as int],
                    result@.len() == PIXELS,
                    forall|p: int|
                        0 <= p < row * 64 + col ==> #[trigger] result@[p] == frame_of(
                            self.rows(),
                        )[p],
                decreases WIDTH - col,
            {
                let bit = (line >> (WIDTH - 1 - col) as u64) & 1;
                let p = row * WIDTH + col;
                proof {
                    assert(p / 64 == row as int && p % 64 == col as int) by (nonlinear_arith)
                        requires
                            p == row * 64 + col,
                            col < 64,
                    ;
                }
                result[p] = if bit == 1 {
                    LIT
                } else {
                    DARK
                };
                col = col + 1;
            }
            row = row + 1;
        }
        assert(result@ =~= frame_of(self.rows()));
        result
    }
}

} // verus!
