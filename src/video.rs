use vstd::prelude::*;

verus! {

pub const WIDTH_PIXELS: usize = 64;
pub const HEIGHT_PIXELS: usize = 32;
pub const NUM_PIXELS: usize = 2048;

/// Whether column `c` (0 = most significant bit) of a sprite row is set.
pub open spec fn sprite_bit(b: u8, c: int) -> bool {
    (b >> ((7 - c) as u8)) & 1u8 == 1u8
}

/// Whether pixel `i` of the buffer lies under a set bit of `sprite` drawn with its
/// top-left corner at column `x`, row `y`. Rows and columns that run past the
/// bottom or right edge are clipped: they cover no pixel.
pub open spec fn covered(sprite: Seq<u8>, x: int, y: int, i: int) -> bool {
    &&& 0 <= i < NUM_PIXELS
    &&& y <= i / 64 < y + sprite.len()
    &&& x <= i % 64 < x + 8
    &&& sprite_bit(sprite[i / 64 - y], i % 64 - x)
}

/// The buffer after drawing: every covered pixel is inverted, the rest is kept.
pub open spec fn drawn(buf: Seq<u8>, sprite: Seq<u8>, x: int, y: int) -> Seq<u8> {
    Seq::new(buf.len(), |i: int| if covered(sprite, x, y, i) { buf[i] ^ 0xFF } else { buf[i] })
}

/// Drawing collides when a covered pixel is already lit.
pub open spec fn collides(buf: Seq<u8>, sprite: Seq<u8>, x: int, y: int) -> bool {
    exists|i: int| covered(sprite, x, y, i) && buf[i] != 0
}

/// The anchor of a sprite, already reduced to the screen.
#[derive(Debug, Clone, Copy, PartialEq, Eq, Structural)]
pub struct DrawCoords {
    pub pos_x: usize,
    pub pos_y: usize,
}

impl DrawCoords {
    pub open spec fn wf(&self) -> bool {
        self.pos_x < WIDTH_PIXELS && self.pos_y < HEIGHT_PIXELS
    }

    /// Wraps a position onto the screen.
    pub fn new(pos_x: u8, pos_y: u8) -> (r: DrawCoords)
        ensures
            r.pos_x == pos_x % 64,
            r.pos_y == pos_y % 32,
            r.wf(),
    {
        DrawCoords { pos_x: (pos_x as usize) % WIDTH_PIXELS, pos_y: (pos_y as usize) % HEIGHT_PIXELS }
    }
}

/// A 64 by 32 monochrome frame buffer, one byte per pixel, row by row.
#[derive(Debug, Clone)]
pub struct Video {
    pub buffer: [u8; 2048],
}

impl Default for Video {
    fn default() -> (r: Video)
        ensures
            forall|i: int| 0 <= i < NUM_PIXELS ==> r.buffer[i] == 0,
    {
        Video { buffer: [0u8; 2048] }
    }
}

/// The pixels of `sprite` handled so far: cells are numbered row by row, eight to a row.
spec fn covered_before(sprite: Seq<u8>, x: int, y: int, i: int, lim: int) -> bool {
    covered(sprite, x, y, i) && (i / 64 - y) * 8 + (i % 64 - x) < lim
}

proof fn lemma_pixel_of_cell(x: int, y: int, row: int, col: int, idx: int)
    requires
        0 <= x < 64,
        0 <= col < 8,
        x + col < 64,
        0 <= y,
        0 <= row,
        idx == (y + row) * 64 + x + col,
    ensures
        idx / 64 == y + row,
        idx % 64 == x + col,
{
    vstd::arithmetic::div_mod::lemma_fundamental_div_mod_converse(idx, 64, y + row, x + col);
}

proof fn lemma_cell_unique(x: int, y: int, i: int, row: int, col: int)
    requires
        0 <= i,
        y <= i / 64,
        x <= i % 64 < x + 8,
        0 <= col < 8,
        (i / 64 - y) * 8 + (i % 64 - x) == row * 8 + col,
    ensures
        i / 64 - y == row,
        i % 64 - x == col,
{
    let a = i / 64 - y;
    let b = i % 64 - x;
    assert(a == row && b == col) by (nonlinear_arith)
        requires
            a * 8 + b == row * 8 + col,
            0 <= b < 8,
            0 <= col < 8,
    ;
}

impl Video {
    pub fn clear(&mut self)
        ensures
            forall|i: int| 0 <= i < NUM_PIXELS ==> final(self).buffer[i] == 0,
    {
        let mut i: usize = 0;
        while i < NUM_PIXELS
            invariant
                i <= NUM_PIXELS,
                forall|j: int| 0 <= j < i ==> self.buffer[j] == 0,
            decreases NUM_PIXELS - i,
        {
            self.buffer[i] = 0;
            i = i + 1;
        }
    }

    /// XOR-draws `sprite` at `coords` and reports whether a lit pixel was turned off.
    pub fn draw(&mut self, sprite: &[u8], coords: &DrawCoords) -> (has_overlap: bool)
        requires
            coords.wf(),
        ensures
            final(self).buffer@ == drawn(old(self).buffer@, sprite@, coords.pos_x as int, coords.pos_y as int),
            has_overlap == collides(old(self).buffer@, sprite@, coords.pos_x as int, coords.pos_y as int),
    {
        let pos_x = coords.pos_x;
        let pos_y = coords.pos_y;
        let ghost x = pos_x as int;
        let ghost y = pos_y as int;
        let ghost sp = sprite@;
        let ghost buf0 = self.buffer@;
        let mut has_overlap = false;
        let mut row: usize = 0;
        while row < sprite.len() && row < HEIGHT_PIXELS - pos_y
            invariant
                x == pos_x < 64,
                y == pos_y < 32,
                sp == sprite@,
                row <= sprite.len(),
                self.buffer@.len() == NUM_PIXELS,
                buf0.len() == NUM_PIXELS,
                forall|i: int| 0 <= i < NUM_PIXELS ==> #[trigger] self.buffer@[i] == if covered_before(sp, x, y, i, row * 8) { buf0[i] ^ 0xFF } else { buf0[i] },
                has_overlap == exists|i: int| covered_before(sp, x, y, i, row * 8) && buf0[i] != 0,
            decreases sprite.len() - row,
        {
            let byte = sprite[row];
            let mut col: usize = 0;
            while col < 8
                invariant
                    x == pos_x < 64,
                    y == pos_y < 32,
                    sp == sprite@,
                    row < sprite.len(),
                    pos_y + row < 32,
                    byte == sp[row as int],
                    col <= 8,
                    self.buffer@.len() == NUM_PIXELS,
                    buf0.len() == NUM_PIXELS,
                    forall|i: int| 0 <= i < NUM_PIXELS ==> #[trigger] self.buffer@[i] == if covered_before(sp, x, y, i, row * 8 + col) { buf0[i] ^ 0xFF } else { buf0[i] },
                    has_overlap == exists|i: int| covered_before(sp, x, y, i, row * 8 + col) && buf0[i] != 0,
                decreases 8 - col,
            {
                let ghost lim = row * 8 + col;
                let ghost old_buf = self.buffer@;
                let ghost old_overlap = has_overlap;
                if pos_x + col < WIDTH_PIXELS {
                    let idx = (pos_y + row) * WIDTH_PIXELS + (pos_x + col);
                    proof {
                        lemma_pixel_of_cell(x, y, row as int, col as int, idx as int);
                    }
                    let c8 = col as u8;
                    proof {
                        assert((byte & (0x80u8 >> c8) != 0) == ((byte >> (7 - c8) as u8) & 1u8 == 1u8)) by (bit_vector)
                            requires c8 < 8;
                    }
                    if byte & (0x80u8 >> c8) != 0 {
                        if self.buffer[idx] != 0 {
                            has_overlap = true;
                        }
                        self.buffer[idx] = self.buffer[idx] ^ 0xFF;
                    }
                    proof {
                        assert forall|i: int| 0 <= i < NUM_PIXELS && i != idx implies
                            covered_before(sp, x, y, i, lim + 1) == covered_before(sp, x, y, i, lim) by {
                            if covered(sp, x, y, i) && (i / 64 - y) * 8 + (i % 64 - x) == lim {
                                lemma_cell_unique(x, y, i, row as int, col as int);
                                vstd::arithmetic::div_mod::lemma_fundamental_div_mod(i, 64);
                            }
                        }
                        assert(covered_before(sp, x, y, idx as int, lim + 1) == sprite_bit(byte, col as int));
                        assert(!covered_before(sp, x, y, idx as int, lim));
                        if has_overlap && !old_overlap {
                            assert(covered_before(sp, x, y, idx as int, lim + 1) && buf0[idx as int] != 0);
                        }
                        if old_overlap {
                            let w = choose|i: int| covered_before(sp, x, y, i, lim) && buf0[i] != 0;
                            assert(covered_before(sp, x, y, w, lim + 1));
                        }
                        if has_overlap {
                        } else {
                            assert forall|i: int| covered_before(sp, x, y, i, lim + 1) implies buf0[i] == 0 by {
                                if i != idx {
                                    assert(covered_before(sp, x, y, i, lim));
                                }
                            }
                        }
                    }
                } else {
                    proof {
                        assert forall|i: int| 0 <= i < NUM_PIXELS implies
                            covered_before(sp, x, y, i, lim + 1) == covered_before(sp, x, y, i, lim) by {
                            if covered(sp, x, y, i) && (i / 64 - y) * 8 + (i % 64 - x) == lim {
                                lemma_cell_unique(x, y, i, row as int, col as int);
                            }
                        }
                    }
                }
                col = col + 1;
            }
            row = row + 1;
            proof {
                assert(row * 8 == (row - 1) * 8 + 8) by (nonlinear_arith);
            }
        }
        proof {
            assert forall|i: int| covered(sp, x, y, i) implies covered_before(sp, x, y, i, row * 8) by {
                if row < sprite.len() {
                    assert(i / 64 < 32) by (nonlinear_arith)
                        requires 0 <= i < 2048;
                }
                assert((i / 64 - y) * 8 + (i % 64 - x) < row * 8) by (nonlinear_arith)
                    requires i / 64 - y < row, i % 64 - x < 8;
            }
            assert(self.buffer@ =~= drawn(buf0, sp, x, y));
        }
        has_overlap
    }
}

/// Drawing a sprite twice at the same place restores every pixel. On a screen
/// where the pixels under the sprite are dark, the first draw reports no
/// collision and the second reports one exactly when the sprite lights a pixel.
pub proof fn lemma_draw_twice(buf: Seq<u8>, sprite: Seq<u8>, x: int, y: int)
    requires
        buf.len() == NUM_PIXELS,
    ensures
        drawn(drawn(buf, sprite, x, y), sprite, x, y) == buf,
        (forall|i: int| covered(sprite, x, y, i) ==> buf[i] == 0) ==> !collides(buf, sprite, x, y)
            && collides(drawn(buf, sprite, x, y), sprite, x, y) == exists|i: int| covered(sprite, x, y, i),
        (forall|i: int| covered(sprite, x, y, i) ==> buf[i] == 0) ==> forall|i: int|
            0 <= i < NUM_PIXELS && covered(sprite, x, y, i) ==> drawn(buf, sprite, x, y)[i] != 0,
{
    let once = drawn(buf, sprite, x, y);
    assert forall|i: int| 0 <= i < buf.len() implies drawn(once, sprite, x, y)[i] == buf[i] by {
        let v = buf[i];
        assert((v ^ 0xFF) ^ 0xFF == v) by (bit_vector);
    }
    assert(drawn(once, sprite, x, y) =~= buf);
    if forall|i: int| covered(sprite, x, y, i) ==> buf[i] == 0 {
        assert forall|i: int| covered(sprite, x, y, i) implies once[i] != 0 by {
            assert((0u8 ^ 0xFFu8) != 0u8) by (bit_vector);
        }
        if exists|i: int| covered(sprite, x, y, i) {
            let w = choose|i: int| covered(sprite, x, y, i);
            assert(covered(sprite, x, y, w) && once[w] != 0);
        }
    }
}

/// On a dark screen, two sprites that share no lit pixel draw without collision.
pub proof fn lemma_disjoint_draws(
    buf: Seq<u8>,
    s1: Seq<u8>,
    x1: int,
    y1: int,
    s2: Seq<u8>,
    x2: int,
    y2: int,
)
    requires
        buf.len() == NUM_PIXELS,
        forall|i: int| 0 <= i < NUM_PIXELS ==> buf[i] == 0,
        forall|i: int| !(covered(s1, x1, y1, i) && covered(s2, x2, y2, i)),
    ensures
        !collides(buf, s1, x1, y1),
        !collides(drawn(buf, s1, x1, y1), s2, x2, y2),
{
}

} // verus!
