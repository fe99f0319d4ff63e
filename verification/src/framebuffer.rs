//! The display: a grid of pixels, and the compositing of sprites onto it.

use vstd::prelude::*;

verus! {

/// The pixel grid as the host sees it: 32 rows of 64 cells, each 0 or 1.
pub type Frame = [[u32; 64]; 32];

/// A grid of pixel states, by row and column.
pub type Grid = Seq<Seq<u32>>;

/// The grid that a frame holds.
pub open spec fn grid_of(frame: Frame) -> Grid {
    Seq::new(32, |r: int| frame@[r]@)
}

/// Whether `g` has the dimensions of the display and only cells that are 0
/// or 1.
pub open spec fn grid_wf(g: Grid) -> bool {
    &&& g.len() == 32
    &&& forall|r: int| 0 <= r < 32 ==> (#[trigger] g[r]).len() == 64
    &&& forall|r: int, c: int|
        0 <= r < 32 && 0 <= c < 64 ==> (#[trigger] g[r][c] == 0 || g[r][c] == 1)
}

/// The grid with every cell `v`.
pub open spec fn uniform_grid(v: u32) -> Grid {
    Seq::new(32, |r: int| Seq::new(64, |c: int| v))
}

/// The grid of which every row shows the bits of `v` eight times over.
pub open spec fn tiled_grid(v: u8) -> Grid {
    Seq::new(32, |r: int| Seq::new(64, |c: int| if sprite_bit(v, c % 8) { 1u32 } else { 0u32 }))
}

/// Bit `b` of a sprite row, counted from the most significant bit.
pub open spec fn sprite_bit(row: u8, b: int) -> bool {
    row & (0x80u8 >> (b as u8)) != 0
}

/// Whether the cell (`r`, `c`) comes before (`row`, `col`) when the grid is
/// walked row by row.
pub open spec fn before(r: int, c: int, row: int, col: int) -> bool {
    r < row || (r == row && c < col)
}

/// The grid when the drawing of `sprite` onto `g` has reached the cell
/// (`row`, `col`): the cells before it are done, the others untouched.
pub open spec fn drawn_upto(
    g: Grid,
    sprite: Seq<u8>,
    start_x: int,
    start_y: int,
    row: int,
    col: int,
) -> Grid {
    Seq::new(
        32,
        |r: int|
            Seq::new(
                64,
                |c: int|
                    if flips(sprite, start_x, start_y, r, c) && before(r, c, row, col) {
                        flipped(g[r][c])
                    } else {
                        g[r][c]
                    },
            ),
    )
}

/// Whether the drawing of `sprite` onto `g` has erased a pixel by the time
/// it reaches the cell (`row`, `col`).
pub open spec fn collides_upto(
    g: Grid,
    sprite: Seq<u8>,
    start_x: int,
    start_y: int,
    row: int,
    col: int,
) -> bool {
    exists|r: int, c: int|
        #[trigger] flips(sprite, start_x, start_y, r, c) && before(r, c, row, col) && g[r][c] == 1
}

/// Whether drawing `sprite` from (`start_x`, `start_y`) flips the cell at
/// (`row`, `col`). The start wraps round the display; the sprite itself does
/// not: a cell is flipped only if it lies at or beyond the wrapped start in
/// both directions.
pub open spec fn flips(sprite: Seq<u8>, start_x: int, start_y: int, row: int, col: int) -> bool {
    let x0 = start_x % 64;
    let y0 = start_y % 32;
    &&& 0 <= row < 32
    &&& 0 <= col < 64
    &&& y0 <= row < y0 + sprite.len()
    &&& x0 <= col < x0 + 8
    &&& sprite_bit(sprite[row - y0], col - x0)
}

/// The cell `v` flipped.
pub open spec fn flipped(v: u32) -> u32 {
    if v == 1 {
        0
    } else {
        1
    }
}

/// The grid after `sprite` has been drawn onto `g`.
pub open spec fn drawn(g: Grid, sprite: Seq<u8>, start_x: int, start_y: int) -> Grid {
    Seq::new(
        32,
        |r: int|
            Seq::new(
                64,
                |c: int|
                    if flips(sprite, start_x, start_y, r, c) {
                        flipped(g[r][c])
                    } else {
                        g[r][c]
                    },
            ),
    )
}

/// Whether drawing `sprite` onto `g` erases a pixel: some cell it flips is 1.
pub open spec fn collides(g: Grid, sprite: Seq<u8>, start_x: int, start_y: int) -> bool {
    exists|r: int, c: int| #[trigger] flips(sprite, start_x, start_y, r, c) && g[r][c] == 1
}

/// Fills `frame` with the bits of `v`, eight columns at a time.
fn fill_frame(frame: &mut Frame, v: u8)
    ensures
        grid_of(*final(frame)) == tiled_grid(v),
        grid_wf(grid_of(*final(frame))),
    no_unwind
{
    let ghost goal = tiled_grid(v);
    let mut i: usize = 0;
    while i < 32
        invariant
            i <= 32,
            goal == tiled_grid(v),
            forall|r: int, c: int|
                0 <= r < i && 0 <= c < 64 ==> #[trigger] frame@[r]@[c] == goal[r][c],
        decreases 32 - i,
    {
        let mut j: usize = 0;
        while j < 64
            invariant
                i < 32,
                j <= 64,
                goal == tiled_grid(v),
                forall|r: int, c: int|
                    0 <= r < i && 0 <= c < 64 ==> #[trigger] frame@[r]@[c] == goal[r][c],
                forall|c: int| 0 <= c < j ==> #[trigger] frame@[i as int]@[c] == goal[i as int][c],
            decreases 64 - j,
        {
            let mask: u8 = 0x80u8 >> ((j % 8) as u8);
            let set: bool = (v & mask) != 0;
            frame[i][j] = if set { 1 } else { 0 };
            j = j + 1;
        }
        i = i + 1;
    }
    assert(grid_of(*frame) =~~= goal);
}

/// Draws `sprite`, which has `rows` rows, onto `frame` and tells whether a
/// pixel was erased.
fn draw_on_frame(
    frame: &mut Frame,
    sprite: &[u8],
    rows: usize,
    start_x: u32,
    start_y: u32,
) -> (hit: bool)
    requires
        grid_wf(grid_of(*old(frame))),
        rows == sprite@.len(),
    ensures
        grid_of(*final(frame)) == drawn(
            grid_of(*old(frame)),
            sprite@,
            start_x as int,
            start_y as int,
        ),
        hit == collides(grid_of(*old(frame)), sprite@, start_x as int, start_y as int),
    no_unwind
{
    let ghost g = grid_of(*frame);
    let ghost sx = start_x as int;
    let ghost sy = start_y as int;
    let x0: usize = (start_x % 64) as usize;
    let y0: usize = (start_y % 32) as usize;
    let mut hit: bool = false;
    let mut n: usize = 0;
    assert(grid_of(*frame) =~~= drawn_upto(g, sprite@, sx, sy, y0 as int, 0));
    while n < rows && y0 + n < 32
        invariant
            grid_wf(g),
            rows == sprite@.len(),
            x0 == sx % 64,
            y0 == sy % 32,
            n <= sprite@.len(),
            y0 + n <= 32,
            grid_of(*frame) == drawn_upto(g, sprite@, sx, sy, y0 + n, 0),
            hit == collides_upto(g, sprite@, sx, sy, y0 + n, 0),
        decreases sprite@.len() - n,
    {
        let row: usize = y0 + n;
        let s: u8 = sprite[n];
        let mut b: usize = 0;
        assert(grid_of(*frame) =~~= drawn_upto(g, sprite@, sx, sy, row as int, x0 as int));
        assert(hit == collides_upto(g, sprite@, sx, sy, row as int, x0 as int));
        while b < 8 && x0 + b < 64
            invariant
                grid_wf(g),
                x0 == sx % 64,
                y0 == sy % 32,
                n < sprite@.len(),
                row == y0 + n,
                row < 32,
                s == sprite@[n as int],
                b <= 8,
                x0 + b <= 64,
                grid_of(*frame) == drawn_upto(g, sprite@, sx, sy, row as int, x0 + b),
                hit == collides_upto(g, sprite@, sx, sy, row as int, x0 + b),
            decreases 8 - b,
        {
            let col: usize = x0 + b;
            let mask: u8 = 0x80u8 >> (b as u8);
            let ghost prev = grid_of(*frame);
            assert(prev[row as int][col as int] == g[row as int][col as int]);
            assert(sprite_bit(s, b as int) == (s & mask != 0));
            assert(flips(sprite@, sx, sy, row as int, col as int) == (s & mask != 0));
            if s & mask != 0 {
                let cell: u32 = frame[row][col];
                assert(cell == prev[row as int][col as int]);
                if cell == 1 {
                    hit = true;
                }
                frame[row][col] = if cell == 1 { 0 } else { 1 };
            }
            b = b + 1;
            assert(grid_of(*frame)[row as int][col as int] == if s & mask != 0 {
                flipped(prev[row as int][col as int])
            } else {
                prev[row as int][col as int]
            });
            assert(forall|r: int, c: int|
                0 <= r < 32 && 0 <= c < 64 && !(r == row && c == col) ==> grid_of(*frame)[r][c]
                    == prev[r][c]);
            let ghost goal = drawn_upto(g, sprite@, sx, sy, row as int, x0 + b);
            assert forall|r: int, c: int| 0 <= r < 32 && 0 <= c < 64 implies grid_of(*frame)[r][c]
                == goal[r][c] by {
                assert(prev[r][c] == drawn_upto(g, sprite@, sx, sy, row as int, col as int)[r][c]);
                if r == row && c == col {
                } else {
                    assert(before(r, c, row as int, col as int) == before(
                        r,
                        c,
                        row as int,
                        col + 1,
                    ));
                }
            }
            assert forall|r: int| 0 <= r < 32 implies #[trigger] grid_of(*frame)[r] =~= goal[r] by {
                assert(grid_of(*frame)[r].len() == 64);
                assert(goal[r].len() == 64);
            }
            assert(grid_of(*frame) =~= goal);
            assert(hit == collides_upto(g, sprite@, sx, sy, row as int, x0 + b));
        }
        n = n + 1;
        assert(grid_of(*frame) =~~= drawn_upto(g, sprite@, sx, sy, y0 + n, 0));
        assert(hit == collides_upto(g, sprite@, sx, sy, y0 + n, 0));
    }
    assert(grid_of(*frame) =~~= drawn(g, sprite@, sx, sy));
    assert(hit == collides(g, sprite@, sx, sy));
    hit
}

/// The text of one row: a star for a lit cell, a blank for any other.
pub open spec fn row_text(row: Seq<u32>) -> Seq<u8> {
    Seq::new(
        64,
        |c: int|
            if row[c] == 1 {
                0x2Au8
            } else {
                0x20u8
            },
    )
}

/// The text of the first `n` rows of `g`, each closed by a bracket and a
/// line feed, with the bracket that opens the next line.
pub open spec fn screen_text_upto(g: Grid, n: int) -> Seq<u8>
    decreases n,
{
    if n <= 0 {
        seq![0x5Bu8]
    } else {
        screen_text_upto(g, n - 1) + row_text(g[n - 1]) + seq![0x5Du8, 0x0Au8, 0x5Bu8]
    }
}

/// The text that shows `g`: one line per row between square brackets, and
/// a last line of two brackets with nothing between them.
pub open spec fn screen_text(g: Grid) -> Seq<u8> {
    screen_text_upto(g, 32) + seq![0x5Du8, 0x0Au8]
}

/// The display.
pub struct Framebuffer {
    frame: Frame,
}

impl View for Framebuffer {
    type V = Grid;

    closed spec fn view(&self) -> Grid {
        grid_of(self.frame)
    }
}

impl Framebuffer {
    /// Every cell is 0 or 1. This holds of every display at all times.
    #[verifier::type_invariant]
    pub open spec fn wf(&self) -> bool {
        grid_wf(self@)
    }

    /// A dark display.
    pub fn new() -> (r: Framebuffer)
        ensures
            r.wf(),
            r@ == uniform_grid(0),
    {
        let r = Framebuffer { frame: [[0u32; 64]; 32] };
        assert(r@ =~~= uniform_grid(0));
        r
    }

    /// Darkens every cell.
    pub fn clear(&mut self)
        ensures
            final(self).wf(),
            final(self)@ == uniform_grid(0),
    {
        self.frame = [[0u32; 64]; 32];
        assert(self@ =~~= uniform_grid(0));
    }

    /// Sets the cell in row `i`, column `j`, to bit `j % 8` of `v`, counted
    /// from the most significant bit: every row shows `v` eight times over.
    pub fn fill_frame_u8(&mut self, v: u8)
        ensures
            final(self).wf(),
            final(self)@ == tiled_grid(v),
    {
        fill_frame(&mut self.frame, v);
    }

    /// Draws `sprite`, one byte per row and the most significant bit
    /// leftmost, with its top left corner at (`start_x`, `start_y`). The
    /// corner wraps round the display; what would lie beyond the right or the
    /// bottom edge is not drawn. Every set bit flips its cell. `colisions`
    /// tells whether any cell was flipped from 1 to 0.
    pub fn draw_sprite(&mut self, sprite: &[u8], start_x: u32, start_y: u32, colisions: &mut bool)
        ensures
            final(self).wf(),
            final(self)@ == drawn(old(self)@, sprite@, start_x as int, start_y as int),
            *final(colisions) == collides(old(self)@, sprite@, start_x as int, start_y as int),
    {
        proof {
            use_type_invariant(&*self);
            lemma_drawn_wf(self@, sprite@, start_x as int, start_y as int);
        }
        let rows = sprite.len();
        *colisions = draw_on_frame(&mut self.frame, sprite, rows, start_x, start_y);
    }

    /// The display as ASCII text, for a terminal.
    pub fn screen_text(&self) -> (text: Vec<u8>)
        ensures
            text@ == screen_text(self@),
    {
        let mut text: Vec<u8> = Vec::new();
        text.push(0x5B);
        let mut i: usize = 0;
        while i < 32
            invariant
                i <= 32,
                text@ == screen_text_upto(self@, i as int),
            decreases 32 - i,
        {
            let ghost done = text@;
            let mut j: usize = 0;
            while j < 64
                invariant
                    i < 32,
                    j <= 64,
                    text@ == done + row_text(self@[i as int]).take(j as int),
                decreases 64 - j,
            {
                text.push(if self.frame[i][j] == 1 { 0x2A } else { 0x20 });
                j = j + 1;
                assert(text@ =~= done + row_text(self@[i as int]).take(j as int));
            }
            assert(row_text(self@[i as int]).take(64) =~= row_text(self@[i as int]));
            text.push(0x5D);
            text.push(0x0A);
            text.push(0x5B);
            i = i + 1;
            assert(text@ =~= screen_text_upto(self@, i as int));
        }
        text.push(0x5D);
        text.push(0x0A);
        assert(text@ =~= screen_text(self@));
        text
    }

    /// The grid as it stands.
    pub fn get_frame(&self) -> (r: &Frame)
        ensures
            self.wf(),
            grid_of(*r) == self@,
    {
        proof {
            use_type_invariant(self);
        }
        &self.frame
    }
}

/// Drawing keeps a grid well formed.
pub proof fn lemma_drawn_wf(g: Grid, sprite: Seq<u8>, start_x: int, start_y: int)
    requires
        grid_wf(g),
    ensures
        grid_wf(drawn(g, sprite, start_x, start_y)),
{
}

/// Drawing the same sprite at the same place twice restores the grid.
pub proof fn lemma_draw_twice_restores(g: Grid, sprite: Seq<u8>, start_x: int, start_y: int)
    requires
        grid_wf(g),
    ensures
        drawn(drawn(g, sprite, start_x, start_y), sprite, start_x, start_y) == g,
{
    let once = drawn(g, sprite, start_x, start_y);
    let twice = drawn(once, sprite, start_x, start_y);
    assert forall|r: int| 0 <= r < 32 implies #[trigger] twice[r] =~= g[r] by {
        assert forall|c: int| 0 <= c < 64 implies twice[r][c] == g[r][c] by {
            assert(g[r][c] == 0 || g[r][c] == 1);
            assert(once[r][c] == if flips(sprite, start_x, start_y, r, c) {
                flipped(g[r][c])
            } else {
                g[r][c]
            });
        }
    }
    assert(twice =~= g);
}

/// The second of two identical draws collides exactly where the first one
/// lit a pixel: whenever the sprite flips a cell that was dark.
pub proof fn lemma_second_draw_collides(g: Grid, sprite: Seq<u8>, start_x: int, start_y: int)
    requires
        grid_wf(g),
    ensures
        collides(drawn(g, sprite, start_x, start_y), sprite, start_x, start_y) <==> exists|
            r: int,
            c: int,
        | #[trigger] flips(sprite, start_x, start_y, r, c) && g[r][c] == 0,
{
    let once = drawn(g, sprite, start_x, start_y);
    if collides(once, sprite, start_x, start_y) {
        let (r, c) = choose|r: int, c: int| #[trigger]
            flips(sprite, start_x, start_y, r, c) && once[r][c] == 1;
        assert(g[r][c] == 0 || g[r][c] == 1);
        assert(flips(sprite, start_x, start_y, r, c) && g[r][c] == 0);
    }
    if exists|r: int, c: int| #[trigger] flips(sprite, start_x, start_y, r, c) && g[r][c] == 0 {
        let (r, c) = choose|r: int, c: int| #[trigger]
            flips(sprite, start_x, start_y, r, c) && g[r][c] == 0;
        assert(flips(sprite, start_x, start_y, r, c) && once[r][c] == 1);
    }
}

/// The start of a draw wraps round the display: a start beyond an edge
/// draws what the start reduced modulo the dimensions draws.
pub proof fn lemma_draw_start_wraps(g: Grid, sprite: Seq<u8>, start_x: int, start_y: int)
    requires
        0 <= start_x,
        0 <= start_y,
    ensures
        drawn(g, sprite, start_x, start_y) == drawn(g, sprite, start_x % 64, start_y % 32),
        collides(g, sprite, start_x, start_y) == collides(g, sprite, start_x % 64, start_y % 32),
{
    let wx = start_x % 64;
    let wy = start_y % 32;
    assert(wx % 64 == wx && wy % 32 == wy);
    assert forall|r: int, c: int|
        flips(sprite, start_x, start_y, r, c) == #[trigger] flips(sprite, wx, wy, r, c) by {}
    assert forall|r: int, c: int|
        #[trigger] flips(sprite, start_x, start_y, r, c) == flips(sprite, wx, wy, r, c) by {}
    assert(drawn(g, sprite, start_x, start_y) =~~= drawn(g, sprite, wx, wy));
    if collides(g, sprite, start_x, start_y) {
        let (r, c) = choose|r: int, c: int| #[trigger]
            flips(sprite, start_x, start_y, r, c) && g[r][c] == 1;
        assert(flips(sprite, wx, wy, r, c) && g[r][c] == 1);
    }
    if collides(g, sprite, wx, wy) {
        let (r, c) = choose|r: int, c: int| #[trigger] flips(sprite, wx, wy, r, c) && g[r][c] == 1;
        assert(flips(sprite, start_x, start_y, r, c) && g[r][c] == 1);
    }
}

/// A sprite is clipped at the right and the bottom edge, not wrapped: a draw
/// changes no cell above or left of its wrapped start, none more than seven
/// columns right of it, and none at or below the row that follows the
/// sprite's last.
pub proof fn lemma_draw_clips(
    g: Grid,
    sprite: Seq<u8>,
    start_x: int,
    start_y: int,
    r: int,
    c: int,
)
    requires
        0 <= start_x,
        0 <= start_y,
        0 <= r < 32,
        0 <= c < 64,
        r < start_y % 32 || c < start_x % 64 || r >= start_y % 32 + sprite.len() || c >= start_x
            % 64 + 8,
    ensures
        !flips(sprite, start_x, start_y, r, c),
        drawn(g, sprite, start_x, start_y)[r][c] == g[r][c],
{
}

/// Inside the sprite's rectangle a draw flips exactly the cells whose sprite
/// bit is set.
pub proof fn lemma_draw_flips(
    g: Grid,
    sprite: Seq<u8>,
    start_x: int,
    start_y: int,
    n: int,
    b: int,
)
    requires
        0 <= start_x,
        0 <= start_y,
        0 <= n < sprite.len(),
        0 <= b < 8,
        start_y % 32 + n < 32,
        start_x % 64 + b < 64,
    ensures
        ({
            let r = start_y % 32 + n;
            let c = start_x % 64 + b;
            drawn(g, sprite, start_x, start_y)[r][c] == if sprite_bit(sprite[n], b) {
                flipped(g[r][c])
            } else {
                g[r][c]
            }
        }),
{
}

} // verus!
