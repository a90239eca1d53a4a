use vstd::prelude::*;

verus! {

/// Pixel columns of the monochrome grid.
pub const WIDTH: usize = 64;
/// Pixel rows of the monochrome grid.
pub const HEIGHT: usize = 32;
/// Cells of the flat row-major pixel buffer.
pub const CELLS: usize = 2048;

/// A buffer cell holds 0 (pixel off) or 1 (pixel on).
pub open spec fn cell_ok(c: u8) -> bool {
    c == 0 || c == 1
}

/// A well-formed screen: one cell per pixel, row-major, each 0 or 1.
pub open spec fn screen_wf(s: Seq<u8>) -> bool {
    &&& s.len() == 2048
    &&& forall|j: int| 0 <= j < s.len() ==> cell_ok(#[trigger] s[j])
}

/// The all-off screen.
pub open spec fn blank_screen() -> Seq<u8> {
    Seq::new(2048, |j: int| 0u8)
}

/// Flat index of the pixel at column `cx`, row `cy`, each wrapped modulo the
/// grid dimensions (screen wraparound, not clipping).
pub open spec fn pix_index(cx: int, cy: int) -> int {
    (cy % 32) * 64 + (cx % 64)
}

/// Bit `k` of a sprite row byte, most-significant bit first (k = 0 is the
/// leftmost pixel of the row).
pub open spec fn row_bit(b: u8, k: int) -> bool {
    (b >> ((7 - k) as u8)) & 1 == 1
}

/// Horizontal distance, in wrapped columns, from column `x % 64` to the
/// column of cell `j`; a cell is covered by a sprite row at `x` iff this
/// offset is below 8.
pub open spec fn col_offset(x: int, j: int) -> int {
    ((j % 64) - (x % 64) + 64) % 64
}

/// A cell after the XOR toggle.
pub open spec fn flip(c: u8) -> u8 {
    if c == 1 { 0u8 } else { 1u8 }
}

/// Cell `j` after XOR-drawing the first `kk` bits of row byte `b` at (x, y).
pub open spec fn row_cell_upto(s: Seq<u8>, b: u8, x: int, y: int, kk: int, j: int) -> u8 {
    if j / 64 == y % 32 && col_offset(x, j) < kk && row_bit(b, col_offset(x, j)) {
        flip(s[j])
    } else {
        s[j]
    }
}

/// The screen after XOR-drawing the first `kk` bits of row byte `b` at (x, y).
pub open spec fn row_screen_upto(s: Seq<u8>, b: u8, x: int, y: int, kk: int) -> Seq<u8> {
    Seq::new(s.len(), |j: int| row_cell_upto(s, b, x, y, kk, j))
}

/// The screen after XOR-drawing the whole row byte `b` at (x, y).
pub open spec fn row_screen(s: Seq<u8>, b: u8, x: int, y: int) -> Seq<u8> {
    row_screen_upto(s, b, x, y, 8)
}

/// Whether one of the first `kk` bits of `b` turns a lit pixel of `s` off.
pub open spec fn row_collision_upto(s: Seq<u8>, b: u8, x: int, y: int, kk: int) -> bool {
    exists|k: int| 0 <= k < kk && #[trigger] row_bit(b, k) && s[pix_index(x + k, y)] == 1
}

/// Whether drawing row byte `b` at (x, y) turns any lit pixel of `s` off.
pub open spec fn row_collision(s: Seq<u8>, b: u8, x: int, y: int) -> bool {
    row_collision_upto(s, b, x, y, 8)
}

/// Cell `j` is the target of bit `k` of a row drawn at (x, y) exactly when
/// `j` sits on the wrapped row of `y` at wrapped offset `k` from `x`.
pub proof fn lemma_target(x: int, y: int, k: int, j: int)
    requires
        0 <= x,
        0 <= y,
        0 <= k < 64,
        0 <= j < 2048,
    ensures
        (j == pix_index(x + k, y)) <==> (j / 64 == y % 32 && col_offset(x, j) == k),
{
}

/// Which sprite row lands on the pixel row of cell `j` when a sprite is
/// drawn at vertical position `y`: the wrapped distance from row `y % 32`
/// down to the row of `j`.
pub open spec fn sprite_row_index(y: int, j: int) -> int {
    ((j / 64) - (y % 32) + 32) % 32
}

/// Cell `j` after XOR-drawing the sprite `rows` at (x, y).  Meaningful for
/// sprites of at most 32 rows, where no cell is covered twice.
pub open spec fn sprite_cell(s: Seq<u8>, rows: Seq<u8>, x: int, y: int, j: int) -> u8 {
    if sprite_row_index(y, j) < rows.len() && col_offset(x, j) < 8 && row_bit(
        rows[sprite_row_index(y, j)],
        col_offset(x, j),
    ) {
        flip(s[j])
    } else {
        s[j]
    }
}

/// The screen after XOR-drawing the sprite `rows` at (x, y), both
/// coordinates wrapped modulo the grid dimensions.
pub open spec fn sprite_screen(s: Seq<u8>, rows: Seq<u8>, x: int, y: int) -> Seq<u8> {
    Seq::new(s.len(), |j: int| sprite_cell(s, rows, x, y, j))
}

/// Whether drawing the sprite `rows` at (x, y) turns any lit pixel of `s`
/// off: true if any row/column pair causes an on-to-off transition.
pub open spec fn sprite_collision(s: Seq<u8>, rows: Seq<u8>, x: int, y: int) -> bool {
    exists|l: int, k: int|
        0 <= l < rows.len() && 0 <= k < 8 && #[trigger] row_bit(rows[l], k) && s[pix_index(
            x + k,
            y + l,
        )] == 1
}

/// Cell `j` lies on the pixel row hit by sprite row `l` exactly when the
/// wrapped row distance from `y` to `j`'s row is `l`.
pub proof fn lemma_row_target(y: int, l: int, j: int)
    requires
        0 <= y,
        0 <= l < 32,
        0 <= j < 2048,
    ensures
        (j / 64 == (y + l) % 32) <==> (sprite_row_index(y, j) == l),
{
}

/// The cell hit by bit `k` of sprite row `l` is in bounds, and decomposing
/// it recovers `l` and `k`.
pub proof fn lemma_pix_target(x: int, y: int, l: int, k: int)
    requires
        0 <= x,
        0 <= y,
        0 <= l < 32,
        0 <= k < 8,
    ensures
        0 <= pix_index(x + k, y + l) < 2048,
        sprite_row_index(y, pix_index(x + k, y + l)) == l,
        col_offset(x, pix_index(x + k, y + l)) == k,
{
    lemma_row_target(y, l, pix_index(x + k, y + l));
    lemma_helper_target(x, y + l, k);
}

proof fn lemma_helper_target(x: int, cy: int, k: int)
    requires
        0 <= x,
        0 <= cy,
        0 <= k < 8,
    ensures
        0 <= pix_index(x + k, cy) < 2048,
        pix_index(x + k, cy) / 64 == cy % 32,
        col_offset(x, pix_index(x + k, cy)) == k,
{
    lemma_target(x, cy, k, pix_index(x + k, cy));
}

/// A row draw only reads its vertical position modulo the grid height, so
/// passing the wrapped position draws the same row.
pub proof fn lemma_row_mod32(s: Seq<u8>, b: u8, x: int, y: int)
    requires
        0 <= y,
    ensures
        row_screen(s, b, x, y % 32) == row_screen(s, b, x, y),
        row_collision(s, b, x, y % 32) == row_collision(s, b, x, y),
{
    assert forall|j: int| 0 <= j < s.len() implies #[trigger] row_cell_upto(s, b, x, y % 32, 8, j)
        == row_cell_upto(s, b, x, y, 8, j) by {}
    assert(row_screen(s, b, x, y % 32) =~= row_screen(s, b, x, y));
    assert forall|k: int| 0 <= k < 8 implies #[trigger] pix_index(x + k, y % 32) == pix_index(
        x + k,
        y,
    ) by {}
    if row_collision(s, b, x, y % 32) {
        let k = choose|k: int|
            0 <= k < 8 && #[trigger] row_bit(b, k) && s[pix_index(x + k, y % 32)] == 1;
        assert(row_bit(b, k) && s[pix_index(x + k, y)] == 1);
    }
    if row_collision(s, b, x, y) {
        let k = choose|k: int| 0 <= k < 8 && #[trigger] row_bit(b, k) && s[pix_index(x + k, y)] == 1;
        assert(row_bit(b, k) && s[pix_index(x + k, y % 32)] == 1);
    }
}

/// Drawing one more row of a sprite: XOR-drawing row `ln` on the screen
/// that already holds the first `ln` rows yields the screen with the first
/// `ln + 1` rows, its per-row collision is the same as against the original
/// screen (earlier rows touch other pixel rows), and the sprite collision
/// flag accumulates by disjunction.
pub proof fn lemma_sprite_step(s: Seq<u8>, rows: Seq<u8>, x: int, y: int, ln: int)
    requires
        screen_wf(s),
        0 <= ln < rows.len(),
        rows.len() <= 32,
        0 <= x,
        0 <= y,
    ensures
        row_screen(sprite_screen(s, rows.take(ln), x, y), rows[ln], x, y + ln) == sprite_screen(
            s,
            rows.take(ln + 1),
            x,
            y,
        ),
        row_collision(sprite_screen(s, rows.take(ln), x, y), rows[ln], x, y + ln) == (exists|
            k: int,
        |
            0 <= k < 8 && #[trigger] row_bit(rows[ln], k) && s[pix_index(x + k, y + ln)] == 1),
        sprite_collision(s, rows.take(ln + 1), x, y) == (sprite_collision(s, rows.take(ln), x, y)
            || (exists|k: int|
            0 <= k < 8 && #[trigger] row_bit(rows[ln], k) && s[pix_index(x + k, y + ln)] == 1)),
{
    let sl = sprite_screen(s, rows.take(ln), x, y);
    assert forall|j: int| 0 <= j < 2048 implies #[trigger] row_cell_upto(sl, rows[ln], x, y + ln, 8, j)
        == sprite_cell(s, rows.take(ln + 1), x, y, j) by {
        lemma_row_target(y, ln, j);
    }
    assert(row_screen(sl, rows[ln], x, y + ln) =~= sprite_screen(s, rows.take(ln + 1), x, y));
    assert forall|k: int| 0 <= k < 8 implies sl[#[trigger] pix_index(x + k, y + ln)] == s[pix_index(
        x + k,
        y + ln,
    )] by {
        lemma_pix_target(x, y, ln, k);
    }
    if row_collision(sl, rows[ln], x, y + ln) {
        let k = choose|k: int|
            0 <= k < 8 && #[trigger] row_bit(rows[ln], k) && sl[pix_index(x + k, y + ln)] == 1;
        assert(row_bit(rows[ln], k) && s[pix_index(x + k, y + ln)] == 1);
    }
    if exists|k: int| 0 <= k < 8 && #[trigger] row_bit(rows[ln], k) && s[pix_index(x + k, y + ln)]
        == 1 {
        let k = choose|k: int|
            0 <= k < 8 && #[trigger] row_bit(rows[ln], k) && s[pix_index(x + k, y + ln)] == 1;
        assert(row_bit(rows[ln], k) && sl[pix_index(x + k, y + ln)] == 1);
        assert(row_collision_upto(sl, rows[ln], x, y + ln, 8));
        assert(0 <= ln < rows.take(ln + 1).len() && row_bit(rows.take(ln + 1)[ln], k)
            && s[pix_index(x + k, y + ln)] == 1);
        assert(sprite_collision(s, rows.take(ln + 1), x, y));
    }
    if sprite_collision(s, rows.take(ln), x, y) {
        let (l, k) = choose|l: int, k: int|
            0 <= l < rows.take(ln).len() && 0 <= k < 8 && #[trigger] row_bit(rows.take(ln)[l], k)
                && s[pix_index(x + k, y + l)] == 1;
        assert(0 <= l < rows.take(ln + 1).len() && row_bit(rows.take(ln + 1)[l], k) && s[pix_index(
            x + k,
            y + l,
        )] == 1);
        assert(sprite_collision(s, rows.take(ln + 1), x, y));
    }
    if sprite_collision(s, rows.take(ln + 1), x, y) {
        let (l, k) = choose|l: int, k: int|
            0 <= l < rows.take(ln + 1).len() && 0 <= k < 8 && #[trigger] row_bit(
                rows.take(ln + 1)[l],
                k,
            ) && s[pix_index(x + k, y + l)] == 1;
        if l < ln {
            assert(0 <= l < rows.take(ln).len() && row_bit(rows.take(ln)[l], k) && s[pix_index(
                x + k,
                y + l,
            )] == 1);
            assert(sprite_collision(s, rows.take(ln), x, y));
        } else {
            assert(row_bit(rows[ln], k) && s[pix_index(x + k, y + ln)] == 1);
        }
    }
}

/// XOR sprite drawing is its own inverse: drawing the same sprite at the
/// same coordinates twice in succession returns the display to its prior
/// state.
pub proof fn lemma_sprite_involution(s: Seq<u8>, rows: Seq<u8>, x: int, y: int)
    requires
        screen_wf(s),
        rows.len() <= 32,
        0 <= x,
        0 <= y,
    ensures
        sprite_screen(sprite_screen(s, rows, x, y), rows, x, y) == s,
{
    let s1 = sprite_screen(s, rows, x, y);
    assert forall|j: int| 0 <= j < 2048 implies sprite_cell(s1, rows, x, y, j) == s[j] by {
        assert(cell_ok(s[j]));
    }
    assert(sprite_screen(s1, rows, x, y) =~= s);
}

/// The collision flag of the second of two identical draws holds exactly
/// when some sprite bit lands on a pixel that was off before the first
/// draw: the first draw lit exactly those pixels, and the second turns
/// them off again.
pub proof fn lemma_sprite_second_collision(s: Seq<u8>, rows: Seq<u8>, x: int, y: int)
    requires
        screen_wf(s),
        rows.len() <= 32,
        0 <= x,
        0 <= y,
    ensures
        sprite_collision(sprite_screen(s, rows, x, y), rows, x, y) <==> (exists|l: int, k: int|
            0 <= l < rows.len() && 0 <= k < 8 && #[trigger] row_bit(rows[l], k) && s[pix_index(
                x + k,
                y + l,
            )] == 0),
{
    let s1 = sprite_screen(s, rows, x, y);
    assert forall|l: int, k: int|
        0 <= l < rows.len() && 0 <= k < 8 && #[trigger] row_bit(rows[l], k) implies (s1[pix_index(
        x + k,
        y + l,
    )] == 1 <==> s[pix_index(x + k, y + l)] == 0) by {
        lemma_pix_target(x, y, l, k);
        assert(cell_ok(s[pix_index(x + k, y + l)]));
    }
    if sprite_collision(s1, rows, x, y) {
        let (l, k) = choose|l: int, k: int|
            0 <= l < rows.len() && 0 <= k < 8 && #[trigger] row_bit(rows[l], k) && s1[pix_index(
                x + k,
                y + l,
            )] == 1;
        assert(row_bit(rows[l], k) && s[pix_index(x + k, y + l)] == 0);
    }
    if exists|l: int, k: int|
        0 <= l < rows.len() && 0 <= k < 8 && #[trigger] row_bit(rows[l], k) && s[pix_index(
            x + k,
            y + l,
        )] == 0 {
        let (l, k) = choose|l: int, k: int|
            0 <= l < rows.len() && 0 <= k < 8 && #[trigger] row_bit(rows[l], k) && s[pix_index(
                x + k,
                y + l,
            )] == 0;
        assert(row_bit(rows[l], k) && s1[pix_index(x + k, y + l)] == 1);
        assert(sprite_collision(s1, rows, x, y));
    }
}

/// Coordinates equal to the grid width and height wrap exactly to column
/// and row zero: drawing at (64, 32) is drawing at (0, 0).
pub proof fn lemma_sprite_wrap_edges(s: Seq<u8>, rows: Seq<u8>)
    requires
        screen_wf(s),
        rows.len() <= 32,
    ensures
        sprite_screen(s, rows, 64, 32) == sprite_screen(s, rows, 0, 0),
        sprite_collision(s, rows, 64, 32) == sprite_collision(s, rows, 0, 0),
{
    assert forall|j: int| 0 <= j < 2048 implies sprite_cell(s, rows, 64, 32, j) == sprite_cell(
        s,
        rows,
        0,
        0,
        j,
    ) by {}
    assert(sprite_screen(s, rows, 64, 32) =~= sprite_screen(s, rows, 0, 0));
    assert forall|l: int, k: int| 0 <= l < rows.len() && 0 <= k < 8 implies #[trigger] pix_index(
        64 + k,
        32 + l,
    ) == pix_index(0 + k, 0 + l) by {}
    if sprite_collision(s, rows, 64, 32) {
        let (l, k) = choose|l: int, k: int|
            0 <= l < rows.len() && 0 <= k < 8 && #[trigger] row_bit(rows[l], k) && s[pix_index(
                64 + k,
                32 + l,
            )] == 1;
        assert(row_bit(rows[l], k) && s[pix_index(0 + k, 0 + l)] == 1);
        assert(sprite_collision(s, rows, 0, 0));
    }
    if sprite_collision(s, rows, 0, 0) {
        let (l, k) = choose|l: int, k: int|
            0 <= l < rows.len() && 0 <= k < 8 && #[trigger] row_bit(rows[l], k) && s[pix_index(
                0 + k,
                0 + l,
            )] == 1;
        assert(row_bit(rows[l], k) && s[pix_index(64 + k, 32 + l)] == 1);
        assert(sprite_collision(s, rows, 64, 32));
    }
}

/// The fixed-size monochrome pixel grid.  Mutated only by `clear` and the
/// XOR draw; its flat buffer is exposed read-only for presentation.
pub struct Display {
    screen: Vec<u8>,
}

impl View for Display {
    type V = Seq<u8>;

    closed spec fn view(&self) -> Seq<u8> {
        self.screen@
    }
}

impl Display {
    /// One cell per pixel, each 0 or 1.
    pub open spec fn wf(&self) -> bool {
        screen_wf(self@)
    }

    /// A display with every pixel off.
    pub fn new() -> (d: Display)
        ensures
            d.wf(),
            d@ == blank_screen(),
    {
        let mut screen: Vec<u8> = Vec::new();
        while screen.len() < 2048
            invariant
                forall|j: int| 0 <= j < screen@.len() ==> screen@[j] == 0,
                screen@.len() <= 2048,
            decreases 2048 - screen.len(),
        {
            screen.push(0);
        }
        proof {
            assert(screen@ =~= blank_screen());
        }
        Display { screen }
    }

    /// Sets every pixel to off.
    pub fn clear(&mut self)
        requires
            old(self).wf(),
        ensures
            final(self).wf(),
            final(self)@ == blank_screen(),
    {
        let mut j: usize = 0;
        while j < 2048
            invariant
                self@.len() == 2048,
                j <= 2048,
                forall|j2: int| 0 <= j2 < j ==> self@[j2] == 0,
            decreases 2048 - j,
        {
            self.screen[j] = 0;
            j = j + 1;
        }
        proof {
            assert(self@ =~= blank_screen());
        }
    }

    /// XOR-draws one 8-pixel sprite row at (x, y), wrapping both coordinates
    /// modulo the grid dimensions, and reports whether any pixel went from
    /// on to off.
    pub fn draw_byte(&mut self, byte: u8, x: u8, y: u8) -> (collision: bool)
        requires
            old(self).wf(),
        ensures
            final(self).wf(),
            final(self)@ == row_screen(old(self)@, byte, x as int, y as int),
            collision == row_collision(old(self)@, byte, x as int, y as int),
    {
        let ghost s0 = self@;
        let ghost xi = x as int;
        let ghost yi = y as int;
        let mut collision = false;
        let mut k: usize = 0;
        while k < 8
            invariant
                k <= 8,
                self.wf(),
                screen_wf(s0),
                xi == x as int,
                yi == y as int,
                self@ == row_screen_upto(s0, byte, xi, yi, k as int),
                collision == row_collision_upto(s0, byte, xi, yi, k as int),
            decreases 8 - k,
        {
            let ghost kprev = k as int;
            let row: usize = (y as usize) % 32;
            let col: usize = (x as usize + k) % 64;
            let idx: usize = row * 64 + col;
            proof {
                assert(idx < 2048);
                assert(idx as int == pix_index(xi + kprev, yi));
                lemma_target(xi, yi, kprev, idx as int);
            }
            let shift: u8 = (7 - k) as u8;
            let bit: bool = (byte >> shift) & 1 == 1;
            proof {
                assert(bit == row_bit(byte, kprev));
            }
            if bit {
                let cur = self.screen[idx];
                proof {
                    assert(self@[idx as int] == row_cell_upto(s0, byte, xi, yi, kprev, idx as int));
                    assert(cur == s0[idx as int]);
                }
                if cur == 1 {
                    collision = true;
                    self.screen[idx] = 0;
                } else {
                    self.screen[idx] = 1;
                }
            }
            k = k + 1;
            proof {
                assert forall|j: int| 0 <= j < 2048 implies self@[j] == row_cell_upto(
                    s0,
                    byte,
                    xi,
                    yi,
                    kprev + 1,
                    j,
                ) by {
                    lemma_target(xi, yi, kprev, j);
                }
                assert(self@ =~= row_screen_upto(s0, byte, xi, yi, k as int));
                if bit && s0[pix_index(xi + kprev, yi)] == 1 {
                    assert(row_bit(byte, kprev));
                    assert(row_collision_upto(s0, byte, xi, yi, k as int));
                } else {
                    assert forall|k2: int|
                        0 <= k2 < kprev + 1 && #[trigger] row_bit(byte, k2) && s0[pix_index(
                            xi + k2,
                            yi,
                        )] == 1 implies 0 <= k2 < kprev && row_bit(byte, k2) && s0[pix_index(
                        xi + k2,
                        yi,
                    )] == 1 by {}
                    assert(row_collision_upto(s0, byte, xi, yi, k as int) == row_collision_upto(
                        s0,
                        byte,
                        xi,
                        yi,
                        kprev,
                    ));
                }
            }
        }
        collision
    }

    /// The flat pixel buffer, row-major, one cell per pixel.
    pub fn get_display_buffer(&self) -> (buffer: &Vec<u8>)
        ensures
            buffer@ == self@,
    {
        &self.screen
    }
}

} // verus!
