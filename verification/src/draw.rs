//! Sprite drawing: the loop over rows and columns, proved to toggle exactly
//! the cells that the model says the sprite covers.

use vstd::prelude::*;
use crate::machine::{Machine, CPU};
use crate::semantics::sprite_bit;

verus! {

impl Machine {
    /// Whether cell `p` lies under a set bit of the sprite that comes before
    /// row `row`, column `col` when the bits are taken row by row, left to
    /// right.
    spec fn covers_before(self, x: u8, y: u8, rows: u8, p: int, row: int, col: int) -> bool {
        let c = p % 64 - self.v[x as int] % 64;
        let r = p / 64 - self.v[y as int] % 32;
        self.sprite_covers(x, y, rows, p) && (r < row || (r == row && c < col))
    }

    /// Whether a lit cell lies under a set bit that comes before row `row`,
    /// column `col`.
    spec fn collides_before(self, x: u8, y: u8, rows: u8, row: int, col: int) -> bool {
        exists|p: int|
            0 <= p < 2048 && self.display[p] && self.covers_before(x, y, rows, p, row, col)
    }

    /// The flag register's value once the bits before row `row`, column
    /// `col` have been drawn.
    spec fn flag_before(self, x: u8, y: u8, rows: u8, row: int, col: int) -> u8 {
        if self.collides_before(x, y, rows, row, col) {
            1u8
        } else {
            0u8
        }
    }

    /// The machine once the bits before row `row`, column `col` have been
    /// drawn.
    spec fn drawn_before(self, x: u8, y: u8, rows: u8, row: int, col: int) -> Machine {
        Machine {
            v: self.v.update(0xF, self.flag_before(x, y, rows, row, col)),
            display: Seq::new(
                2048,
                |p: int| self.display[p] != self.covers_before(x, y, rows, p, row, col),
            ),
            ..self
        }
    }
}

/// Before the first bit nothing is drawn, and after the last row the whole
/// sprite is.
proof fn lemma_draw_ends(m: Machine, x: u8, y: u8, rows: u8)
    requires
        m.wf(),
        x < 16,
        y < 16,
    ensures
        m.drawn_before(x, y, rows, 0, 0) == (Machine { v: m.v.update(0xF, 0u8), ..m }),
        m.drawn_before(x, y, rows, rows as int, 0) == m.drawn(x, y, rows),
{
    assert(m.drawn_before(x, y, rows, 0, 0).display =~= m.display);
    assert(m.collides_before(x, y, rows, rows as int, 0) == m.sprite_collides(x, y, rows)) by {
        if m.sprite_collides(x, y, rows) {
            let p = choose|p: int|
                0 <= p < 2048 && m.display[p] && m.sprite_covers(x, y, rows, p);
            assert(m.covers_before(x, y, rows, p, rows as int, 0));
        }
    }
    assert(m.drawn_before(x, y, rows, rows as int, 0).display =~= m.drawn(x, y, rows).display);
}

/// Finishing a row is the same as standing at the start of the next one.
proof fn lemma_draw_next_row(m: Machine, x: u8, y: u8, rows: u8, row: int)
    requires
        m.wf(),
        x < 16,
        y < 16,
    ensures
        m.drawn_before(x, y, rows, row, 8) == m.drawn_before(x, y, rows, row + 1, 0),
{
    assert forall|p: int|
        m.covers_before(x, y, rows, p, row, 8) == m.covers_before(x, y, rows, p, row + 1, 0) by {}
    assert(m.collides_before(x, y, rows, row, 8) == m.collides_before(x, y, rows, row + 1, 0)) by {
        if m.collides_before(x, y, rows, row, 8) {
            let p = choose|p: int|
                0 <= p < 2048 && m.display[p] && m.covers_before(x, y, rows, p, row, 8);
            assert(m.covers_before(x, y, rows, p, row + 1, 0));
        }
        if m.collides_before(x, y, rows, row + 1, 0) {
            let p = choose|p: int|
                0 <= p < 2048 && m.display[p] && m.covers_before(x, y, rows, p, row + 1, 0);
            assert(m.covers_before(x, y, rows, p, row, 8));
        }
    }
    assert(m.drawn_before(x, y, rows, row, 8).display =~= m.drawn_before(
        x,
        y,
        rows,
        row + 1,
        0,
    ).display);
}

/// Drawing the bit at row `row`, column `col` toggles one cell if the bit is
/// set and lands on the display, and raises the flag if that cell was lit;
/// otherwise it changes nothing.
proof fn lemma_draw_bit(m: Machine, x: u8, y: u8, rows: u8, row: int, col: int)
    requires
        m.wf(),
        x < 16,
        y < 16,
        0 <= row < rows,
        0 <= col < 8,
    ensures
        ({
            let tx = m.v[x as int] % 64 + col;
            let ty = m.v[y as int] % 32 + row;
            let cell = tx + ty * 64;
            let now = m.drawn_before(x, y, rows, row, col);
            let next = m.drawn_before(x, y, rows, row, col + 1);
            if sprite_bit(m.memory[m.address(row)], col as u8) && tx < 64 && ty < 32 {
                &&& 0 <= cell < 2048
                &&& next.display == now.display.update(cell, !now.display[cell])
                &&& next.v == if now.display[cell] {
                    now.v.update(0xF, 1u8)
                } else {
                    now.v
                }
            } else {
                next == now
            }
        }),
{
    let tx = m.v[x as int] % 64 + col;
    let ty = m.v[y as int] % 32 + row;
    let cell = tx + ty * 64;
    let now = m.drawn_before(x, y, rows, row, col);
    let next = m.drawn_before(x, y, rows, row, col + 1);
    let hit = sprite_bit(m.memory[m.address(row)], col as u8) && tx < 64 && ty < 32;
    assert forall|p: int| 0 <= p < 2048 implies m.covers_before(x, y, rows, p, row, col + 1) == (
    m.covers_before(x, y, rows, p, row, col) || (hit && p == cell)) by {}
    if hit {
        assert(!m.covers_before(x, y, rows, cell, row, col));
        assert(m.covers_before(x, y, rows, cell, row, col + 1));
        assert(now.display[cell] == m.display[cell]);
    }
    assert(m.collides_before(x, y, rows, row, col + 1) == (m.collides_before(x, y, rows, row, col)
        || (hit && m.display[cell]))) by {
        if m.collides_before(x, y, rows, row, col + 1) {
            let p = choose|p: int|
                0 <= p < 2048 && m.display[p] && m.covers_before(x, y, rows, p, row, col + 1);
            assert(m.covers_before(x, y, rows, p, row, col) || (hit && p == cell));
        }
        if m.collides_before(x, y, rows, row, col) {
            let p = choose|p: int|
                0 <= p < 2048 && m.display[p] && m.covers_before(x, y, rows, p, row, col);
            assert(m.covers_before(x, y, rows, p, row, col + 1));
        }
    }
    if hit {
        assert(next.display =~= now.display.update(cell, !now.display[cell]));
        assert(next.v =~= if now.display[cell] {
            now.v.update(0xF, 1u8)
        } else {
            now.v
        });
    } else {
        assert(next.display =~= now.display);
    }
}

impl CPU {
    /// Draws the sprite of `rows` rows found at the index register, with its
    /// top left corner at the position that registers `x` and `y` give.
    pub(crate) fn draw(&mut self, x: u8, y: u8, rows: u8)
        requires
            old(self).wf(),
            x < 16,
            y < 16,
            rows < 16,
        ensures
            Self::same_stack(*old(self), *final(self)),
            final(self)@ == old(self)@.drawn(x, y, rows),
    {
        let ghost m = self@;
        let left: usize = (self.v[x as usize] as usize) % 64;
        let top: usize = (self.v[y as usize] as usize) % 32;
        self.v[0xF] = 0;
        proof {
            lemma_draw_ends(m, x, y, rows);
        }
        let mut row: u8 = 0;
        while row < rows
            invariant
                m.wf(),
                Self::same_stack(*old(self), *self),
                x < 16,
                y < 16,
                rows < 16,
                row <= rows,
                left == m.v[x as int] % 64,
                top == m.v[y as int] % 32,
                self@ == m.drawn_before(x, y, rows, row as int, 0),
            decreases rows - row,
        {
            let bits: u8 = self.memory[(self.i as usize + row as usize) % 4096];
            let mut col: u8 = 0;
            while col < 8
                invariant
                    m.wf(),
                    Self::same_stack(*old(self), *self),
                    x < 16,
                    y < 16,
                    rows < 16,
                    row < rows,
                    col <= 8,
                    left == m.v[x as int] % 64,
                    top == m.v[y as int] % 32,
                    bits == m.memory[m.address(row as int)],
                    self@ == m.drawn_before(x, y, rows, row as int, col as int),
                decreases 8 - col,
            {
                proof {
                    lemma_draw_bit(m, x, y, rows, row as int, col as int);
                }
                if bits & (0x80u8 >> col) != 0 {
                    let tx: usize = left + col as usize;
                    let ty: usize = top + row as usize;
                    if tx < 64 && ty < 32 {
                        let cell: usize = tx + ty * 64;
                        if self.display[cell] {
                            self.v[0xF] = 1;
                        }
                        self.display[cell] = !self.display[cell];
                    }
                }
                col += 1;
            }
            proof {
                lemma_draw_next_row(m, x, y, rows, row as int);
            }
            row += 1;
        }
    }
}

} // verus!
