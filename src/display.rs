use vstd::prelude::*;
use crate::util::{bit_from_left, Bits};

verus! {

/// Columns of the framebuffer.
pub const WIDTH: usize = 64;

/// Rows of the framebuffer.
pub const HEIGHT: usize = 32;

/// Cells of the framebuffer.
pub const CELLS: usize = 2048;

/// Where the pixel `(x, y)` stands in the row-major grid.
pub open spec fn cell(x: int, y: int) -> int {
    y * 64 + x
}

pub open spec fn in_grid(x: int, y: int) -> bool {
    0 <= x < 64 && 0 <= y < 32
}

/// Whether a sprite row drawn from column `x0` lays a set bit on column `x`.
pub open spec fn row_covers(byte: u8, x0: int, x: int) -> bool {
    x0 <= x < x0 + 8 && bit_from_left(byte, x - x0)
}

/// Whether the sprite `rows` drawn at `(x0, y0)` lays a set bit on `(x, y)`.
pub open spec fn sprite_covers(rows: Seq<u8>, x0: int, y0: int, x: int, y: int) -> bool {
    y0 <= y < y0 + rows.len() && row_covers(rows[y - y0], x0, x)
}

/// The pixels after the sprite `rows` is XORed onto `before` at `(x0, y0)`;
/// what falls outside the grid is clipped.
pub open spec fn drawn(before: Seq<bool>, rows: Seq<u8>, x0: int, y0: int) -> Seq<bool> {
    Seq::new(2048, |k: int| before[k] ^ sprite_covers(rows, x0, y0, k % 64, k / 64))
}

/// Whether drawing the sprite turns some pixel of `before` off.
pub open spec fn collides(before: Seq<bool>, rows: Seq<u8>, x0: int, y0: int) -> bool {
    exists|k: int| 0 <= k < 2048 && before[k] && #[trigger] sprite_covers(rows, x0, y0, k % 64, k / 64)
}

/// The cells of row `y` that a sprite row flips, from column `x0 + c` on, left to right.
pub open spec fn row_cells(byte: u8, x0: int, y: int, c: int) -> Seq<(u8, u8)>
    decreases 8 - c,
{
    if c >= 8 || c < 0 {
        Seq::empty()
    } else if x0 + c < 64 && y < 32 && bit_from_left(byte, c) {
        seq![((x0 + c) as u8, y as u8)] + row_cells(byte, x0, y, c + 1)
    } else {
        row_cells(byte, x0, y, c + 1)
    }
}

/// The cells that the sprite flips, from its row `r` on, row by row.
pub open spec fn sprite_cells(rows: Seq<u8>, x0: int, y0: int, r: int) -> Seq<(u8, u8)>
    decreases rows.len() - r,
{
    if r >= rows.len() || r < 0 {
        Seq::empty()
    } else {
        row_cells(rows[r], x0, y0 + r, 0) + sprite_cells(rows, x0, y0, r + 1)
    }
}

/// The monochrome framebuffer: every pixel is either off (`false`) or on (`true`).
#[derive(Debug)]
pub struct Display {
    grid: [bool; CELLS],
}

impl View for Display {
    type V = Seq<bool>;

    closed spec fn view(&self) -> Seq<bool> {
        self.grid@
    }
}

impl Display {
    /// Every display holds one pixel per cell.
    pub proof fn lemma_len(&self)
        ensures
            self@.len() == 2048,
    {
    }

    /// A display with every pixel off.
    pub fn new() -> (r: Self)
        ensures
            r@ == Seq::new(2048, |k: int| false),
    {
        let r = Display { grid: [false; CELLS] };
        assert(r@ =~= Seq::new(2048, |k: int| false));
        r
    }

    /// Whether the pixel at `(x, y)` is on.
    pub fn get(&self, x: u8, y: u8) -> (r: bool)
        requires
            x < 64,
            y < 32,
        ensures
            r == self@[cell(x as int, y as int)],
    {
        self.grid[y as usize * WIDTH + x as usize]
    }

    /// Turns every pixel off.
    pub fn clear(&mut self)
        ensures
            final(self)@ == Seq::new(2048, |k: int| false),
    {
        let mut k: usize = 0;
        while k < CELLS
            invariant
                k <= CELLS,
                forall|j: int| 0 <= j < k ==> !self.grid@[j],
            decreases CELLS - k,
        {
            self.grid[k] = false;
            k = k + 1;
        }
        assert(self@ =~= Seq::new(2048, |k: int| false));
    }

    /// XORs one sprite row onto row `y` from column `x0`, appends the cells it
    /// flips to `changed`, and returns whether it turned a pixel off.
    fn draw_row(&mut self, x0: u8, y: usize, byte: u8, changed: &mut Vec<(u8, u8)>) -> (collision: bool)
        requires
            y < 32,
        ensures
            final(self)@ == Seq::new(2048, |k: int| old(self)@[k] ^ (k / 64 == y && row_covers(byte, x0 as int, k % 64))),
            collision == exists|k: int| 0 <= k < 2048 && old(self)@[k] && #[trigger] (k / 64) == y
                && row_covers(byte, x0 as int, k % 64),
            final(changed)@ == old(changed)@ + row_cells(byte, x0 as int, y as int, 0),
    {
        let ghost before = self@;
        let ghost start = changed@;
        let mut bits = Bits::new(byte);
        let mut collision = false;
        let mut c: usize = 0;
        while c < 8
            invariant
                c <= 8,
                y < 32,
                before.len() == 2048,
                bits.remaining() == crate::util::bits_left_to_right(byte).skip(c as int),
                self@.len() == 2048,
                forall|k: int| 0 <= k < 2048 ==> self@[k] == (before[k] ^ (k / 64 == y && x0 as int <= k % 64 < x0 + c
                    && row_covers(byte, x0 as int, k % 64))),
                collision == exists|k: int| 0 <= k < 2048 && before[k] && #[trigger] (k / 64) == y
                    && x0 as int <= k % 64 < x0 + c && row_covers(byte, x0 as int, k % 64),
                changed@ + row_cells(byte, x0 as int, y as int, c as int) == start + row_cells(byte, x0 as int, y as int, 0),
            decreases 8 - c,
        {
            let bit = match bits.next() {
                Some(b) => b,
                None => false,
            };
            assert(bit == bit_from_left(byte, c as int));
            let x = x0 as usize + c;
            let ghost mid = self@;
            let ghost was_colliding = collision;
            if x < WIDTH && bit {
                let k = y * WIDTH + x;
                assert(k / 64 == y && k % 64 == x);
                let previous = self.grid[k];
                self.grid[k] = !previous;
                if previous {
                    collision = true;
                }
                let ghost old_changed = changed@;
                changed.push((x as u8, y as u8));
                assert(changed@ + row_cells(byte, x0 as int, y as int, (c + 1) as int)
                    =~= old_changed + row_cells(byte, x0 as int, y as int, c as int));
            }
            proof {
                let hi = x0 + c + 1;
                if collision && !was_colliding {
                    let k = (y * 64 + x) as int;
                    assert(k / 64 == y && k % 64 == x);
                    assert(before[k] && (k / 64) == y && x0 as int <= k % 64 < hi && row_covers(byte, x0 as int, k % 64));
                }
                if was_colliding {
                    let k = choose|k: int| 0 <= k < 2048 && before[k] && #[trigger] (k / 64) == y
                        && x0 as int <= k % 64 < x0 + c && row_covers(byte, x0 as int, k % 64);
                    assert(x0 as int <= k % 64 < hi);
                }
                if exists|k: int| 0 <= k < 2048 && before[k] && #[trigger] (k / 64) == y
                    && x0 as int <= k % 64 < hi && row_covers(byte, x0 as int, k % 64) {
                    let k = choose|k: int| 0 <= k < 2048 && before[k] && #[trigger] (k / 64) == y
                        && x0 as int <= k % 64 < hi && row_covers(byte, x0 as int, k % 64);
                    if k % 64 == x0 + c {
                        assert(k == y * 64 + x);
                        assert(mid[k] == before[k]);
                    }
                }
            }
            c = c + 1;
            assert(bits.remaining() =~= crate::util::bits_left_to_right(byte).skip(c as int));
        }
        assert(self@ =~= Seq::new(2048, |k: int| before[k] ^ (k / 64 == y && row_covers(byte, x0 as int, k % 64))));
        assert(row_cells(byte, x0 as int, y as int, 8) =~= Seq::empty());
        assert(changed@ =~= start + row_cells(byte, x0 as int, y as int, 0));
        collision
    }

    /// XORs the sprite `rows` onto the display with its top left corner at
    /// `(x, y)`, one row per byte, most significant bit leftmost. Pixels that
    /// fall outside the grid are clipped. Returns whether some pixel went
    /// from on to off, and the cells that changed, row by row.
    pub fn draw_sprite(&mut self, x: u8, y: u8, rows: &[u8]) -> (r: (bool, Vec<(u8, u8)>))
        ensures
            final(self)@ == drawn(old(self)@, rows@, x as int, y as int),
            r.0 == collides(old(self)@, rows@, x as int, y as int),
            r.1@ == sprite_cells(rows@, x as int, y as int, 0),
    {
        let ghost before = self@;
        let mut changed: Vec<(u8, u8)> = Vec::new();
        let mut collision = false;
        let mut r: usize = 0;
        while r < rows.len()
            invariant
                r <= rows@.len(),
                before.len() == 2048,
                self@.len() == 2048,
                self@ == drawn(before, rows@.take(r as int), x as int, y as int),
                collision == collides(before, rows@.take(r as int), x as int, y as int),
                changed@ + sprite_cells(rows@, x as int, y as int, r as int) == sprite_cells(rows@, x as int, y as int, 0),
            decreases rows@.len() - r,
        {
            let ghost mid = self@;
            let ghost taken = rows@.take(r as int);
            let ghost next = rows@.take(r + 1);
            let ghost old_changed = changed@;
            assert forall|k: int| 0 <= k < 2048 implies #[trigger] sprite_covers(next, x as int, y as int, k % 64, k / 64)
                == (sprite_covers(taken, x as int, y as int, k % 64, k / 64)
                || (k / 64 == y + r && row_covers(rows@[r as int], x as int, k % 64))) by {}
            if r < HEIGHT && y as usize + r < HEIGHT {
                let row_y = y as usize + r;
                let hit = self.draw_row(x, row_y, rows[r], &mut changed);
                assert forall|k: int| 0 <= k < 2048 && k / 64 == row_y implies mid[k] == before[k] by {
                    assert(!sprite_covers(taken, x as int, y as int, k % 64, k / 64));
                }
                proof {
                    if hit {
                        let k = choose|k: int| 0 <= k < 2048 && mid[k] && #[trigger] (k / 64) == row_y
                            && row_covers(rows@[r as int], x as int, k % 64);
                        assert(sprite_covers(next, x as int, y as int, k % 64, k / 64));
                    }
                    if collision {
                        let k = choose|k: int| 0 <= k < 2048 && before[k]
                            && #[trigger] sprite_covers(taken, x as int, y as int, k % 64, k / 64);
                        assert(sprite_covers(next, x as int, y as int, k % 64, k / 64));
                    }
                    if collides(before, next, x as int, y as int) {
                        let k = choose|k: int| 0 <= k < 2048 && before[k]
                            && #[trigger] sprite_covers(next, x as int, y as int, k % 64, k / 64);
                        if !sprite_covers(taken, x as int, y as int, k % 64, k / 64) {
                            assert(mid[k]);
                            assert((k / 64) == row_y);
                        }
                    }
                }
                collision = collision || hit;
            } else {
                let ghost row_y = y as int + r;
                proof {
                    if collides(before, next, x as int, y as int) {
                        let k = choose|k: int| 0 <= k < 2048 && before[k]
                            && #[trigger] sprite_covers(next, x as int, y as int, k % 64, k / 64);
                        assert(sprite_covers(taken, x as int, y as int, k % 64, k / 64));
                    }
                    if collision {
                        let k = choose|k: int| 0 <= k < 2048 && before[k]
                            && #[trigger] sprite_covers(taken, x as int, y as int, k % 64, k / 64);
                        assert(sprite_covers(next, x as int, y as int, k % 64, k / 64));
                    }
                }
                assert(row_cells(rows@[r as int], x as int, row_y as int, 0) =~= Seq::empty()) by {
                    lemma_row_cells_off_grid(rows@[r as int], x as int, row_y, 0);
                }
            }
            assert(self@ =~= drawn(before, next, x as int, y as int));
            assert(changed@ + sprite_cells(rows@, x as int, y as int, r + 1)
                =~= old_changed + sprite_cells(rows@, x as int, y as int, r as int));
            r = r + 1;
        }
        assert(rows@.take(rows@.len() as int) =~= rows@);
        assert(changed@ =~= sprite_cells(rows@, x as int, y as int, 0));
        (collision, changed)
    }
}

/// A row below the grid flips no cell.
proof fn lemma_row_cells_off_grid(byte: u8, x0: int, y: int, c: int)
    requires
        y >= 32,
    ensures
        row_cells(byte, x0, y, c) == Seq::<(u8, u8)>::empty(),
    decreases 8 - c,
{
    if c < 8 && c >= 0 {
        lemma_row_cells_off_grid(byte, x0, y, c + 1);
    }
}

/// Drawing a sprite twice at the same place gives back every pixel as it
/// was, and the second draw collides exactly where the first one lit a pixel
/// that had been off, which is where the first draw left a covered pixel on.
pub proof fn lemma_draw_twice_restores(before: Seq<bool>, rows: Seq<u8>, x0: int, y0: int)
    requires
        before.len() == 2048,
    ensures
        drawn(drawn(before, rows, x0, y0), rows, x0, y0) == before,
        collides(drawn(before, rows, x0, y0), rows, x0, y0) == exists|k: int|
            0 <= k < 2048 && !before[k] && #[trigger] sprite_covers(rows, x0, y0, k % 64, k / 64),
{
    let once = drawn(before, rows, x0, y0);
    assert(drawn(once, rows, x0, y0) =~= before);
    if collides(once, rows, x0, y0) {
        let k = choose|k: int| 0 <= k < 2048 && once[k] && #[trigger] sprite_covers(rows, x0, y0, k % 64, k / 64);
        assert(!before[k]);
    }
    if exists|k: int| 0 <= k < 2048 && !before[k] && #[trigger] sprite_covers(rows, x0, y0, k % 64, k / 64) {
        let k = choose|k: int| 0 <= k < 2048 && !before[k] && #[trigger] sprite_covers(rows, x0, y0, k % 64, k / 64);
        assert(once[k]);
    }
}

/// Every cell that `row_cells` lists is a grid cell of row `y` that the
/// sprite row covers, from column `x0 + c` on.
proof fn lemma_row_cells_sound(byte: u8, x0: int, y: int, c: int)
    requires
        0 <= x0,
        0 <= y,
    ensures
        forall|i: int| 0 <= i < row_cells(byte, x0, y, c).len() ==> {
            let p = #[trigger] row_cells(byte, x0, y, c)[i];
            p.1 as int == y && y < 32 && p.0 < 64 && x0 + c <= p.0 as int && row_covers(byte, x0, p.0 as int)
        },
    decreases 8 - c,
{
    if 0 <= c < 8 {
        lemma_row_cells_sound(byte, x0, y, c + 1);
        let rest = row_cells(byte, x0, y, c + 1);
        if x0 + c < 64 && y < 32 && bit_from_left(byte, c) {
            assert forall|i: int| 0 <= i < row_cells(byte, x0, y, c).len() implies {
                let p = #[trigger] row_cells(byte, x0, y, c)[i];
                p.1 as int == y && y < 32 && p.0 < 64 && x0 + c <= p.0 as int && row_covers(byte, x0, p.0 as int)
            } by {
                if i > 0 {
                    assert(row_cells(byte, x0, y, c)[i] == rest[i - 1]);
                }
            }
        }
    }
}

/// Every grid cell of row `y` that the sprite row covers from column
/// `x0 + c` on is listed by `row_cells`.
proof fn lemma_row_cells_complete(byte: u8, x0: int, y: int, c: int, x: int)
    requires
        0 <= x0,
        0 <= y < 32,
        0 <= c,
        x0 + c <= x < 64,
        row_covers(byte, x0, x),
    ensures
        exists|i: int| 0 <= i < row_cells(byte, x0, y, c).len() && #[trigger] row_cells(byte, x0, y, c)[i] == (x as u8, y as u8),
    decreases 8 - c,
{
    let here = row_cells(byte, x0, y, c);
    if x == x0 + c {
        assert(here[0] == (x as u8, y as u8));
    } else {
        lemma_row_cells_complete(byte, x0, y, c + 1, x);
        let rest = row_cells(byte, x0, y, c + 1);
        let i = choose|i: int| 0 <= i < rest.len() && #[trigger] rest[i] == (x as u8, y as u8);
        if x0 + c < 64 && y < 32 && bit_from_left(byte, c) {
            assert(here[i + 1] == rest[i]);
        } else {
            assert(here[i] == rest[i]);
        }
    }
}

/// Every cell that `sprite_cells` lists from sprite row `r` on is a grid
/// cell that the sprite covers, at a row `r` or more below its top.
proof fn lemma_sprite_cells_sound(rows: Seq<u8>, x0: int, y0: int, r: int)
    requires
        0 <= x0,
        0 <= y0,
        0 <= r,
    ensures
        forall|i: int| 0 <= i < sprite_cells(rows, x0, y0, r).len() ==> {
            let p = #[trigger] sprite_cells(rows, x0, y0, r)[i];
            in_grid(p.0 as int, p.1 as int) && y0 + r <= p.1 as int && sprite_covers(rows, x0, y0, p.0 as int, p.1 as int)
        },
    decreases rows.len() - r,
{
    if r < rows.len() {
        lemma_sprite_cells_sound(rows, x0, y0, r + 1);
        lemma_row_cells_sound(rows[r], x0, y0 + r, 0);
        let head = row_cells(rows[r], x0, y0 + r, 0);
        let rest = sprite_cells(rows, x0, y0, r + 1);
        assert forall|i: int| 0 <= i < sprite_cells(rows, x0, y0, r).len() implies {
            let p = #[trigger] sprite_cells(rows, x0, y0, r)[i];
            in_grid(p.0 as int, p.1 as int) && y0 + r <= p.1 as int && sprite_covers(rows, x0, y0, p.0 as int, p.1 as int)
        } by {
            if i < head.len() {
                assert(sprite_cells(rows, x0, y0, r)[i] == head[i]);
            } else {
                assert(sprite_cells(rows, x0, y0, r)[i] == rest[i - head.len()]);
            }
        }
    }
}

/// Every grid cell that the sprite covers at a row `r` or more below its
/// top is listed by `sprite_cells`.
proof fn lemma_sprite_cells_complete(rows: Seq<u8>, x0: int, y0: int, r: int, x: int, y: int)
    requires
        0 <= x0,
        0 <= y0,
        0 <= r,
        y0 + r <= y,
        in_grid(x, y),
        sprite_covers(rows, x0, y0, x, y),
    ensures
        exists|i: int| 0 <= i < sprite_cells(rows, x0, y0, r).len() && #[trigger] sprite_cells(rows, x0, y0, r)[i] == (x as u8, y as u8),
    decreases rows.len() - r,
{
    let head = row_cells(rows[r], x0, y0 + r, 0);
    let rest = sprite_cells(rows, x0, y0, r + 1);
    if y == y0 + r {
        lemma_row_cells_complete(rows[r], x0, y, 0, x);
        let i = choose|i: int| 0 <= i < head.len() && #[trigger] head[i] == (x as u8, y as u8);
        assert(sprite_cells(rows, x0, y0, r)[i] == head[i]);
    } else {
        lemma_sprite_cells_complete(rows, x0, y0, r + 1, x, y);
        let i = choose|i: int| 0 <= i < rest.len() && #[trigger] rest[i] == (x as u8, y as u8);
        assert(sprite_cells(rows, x0, y0, r)[i + head.len()] == rest[i]);
    }
}

/// The cells that a draw reports are exactly the cells whose pixel it changed.
pub proof fn lemma_sprite_cells_are_changes(before: Seq<bool>, rows: Seq<u8>, x0: u8, y0: u8)
    requires
        before.len() == 2048,
    ensures
        forall|i: int| 0 <= i < sprite_cells(rows, x0 as int, y0 as int, 0).len() ==> {
            let p = #[trigger] sprite_cells(rows, x0 as int, y0 as int, 0)[i];
            in_grid(p.0 as int, p.1 as int) && drawn(before, rows, x0 as int, y0 as int)[cell(p.0 as int, p.1 as int)]
                != before[cell(p.0 as int, p.1 as int)]
        },
        forall|x: int, y: int| in_grid(x, y) && #[trigger] drawn(before, rows, x0 as int, y0 as int)[cell(x, y)] != before[cell(x, y)]
            ==> exists|i: int| 0 <= i < sprite_cells(rows, x0 as int, y0 as int, 0).len()
                && #[trigger] sprite_cells(rows, x0 as int, y0 as int, 0)[i] == (x as u8, y as u8),
{
    let after = drawn(before, rows, x0 as int, y0 as int);
    lemma_sprite_cells_sound(rows, x0 as int, y0 as int, 0);
    assert forall|i: int| 0 <= i < sprite_cells(rows, x0 as int, y0 as int, 0).len() implies {
        let p = #[trigger] sprite_cells(rows, x0 as int, y0 as int, 0)[i];
        in_grid(p.0 as int, p.1 as int) && after[cell(p.0 as int, p.1 as int)] != before[cell(p.0 as int, p.1 as int)]
    } by {
        let p = sprite_cells(rows, x0 as int, y0 as int, 0)[i];
        let k = cell(p.0 as int, p.1 as int);
        assert(k % 64 == p.0 as int && k / 64 == p.1 as int);
    }
    assert forall|x: int, y: int| in_grid(x, y) && #[trigger] after[cell(x, y)] != before[cell(x, y)]
        implies exists|i: int| 0 <= i < sprite_cells(rows, x0 as int, y0 as int, 0).len()
            && #[trigger] sprite_cells(rows, x0 as int, y0 as int, 0)[i] == (x as u8, y as u8) by {
        let k = cell(x, y);
        assert(k % 64 == x && k / 64 == y);
        lemma_sprite_cells_complete(rows, x0 as int, y0 as int, 0, x, y);
    }
}

} // verus!
