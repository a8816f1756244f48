//! The playfield: grid positions, cell states and the cell buffer.

use vstd::prelude::*;

verus! {

/// Number of columns of the playfield.
pub const SCREEN_WIDTH: isize = 50;

/// Number of rows of the playfield.
pub const SCREEN_HEIGHT: isize = 30;

/// A grid position: column `x`, row `y`. Row 0 is the top row.
#[derive(Clone, Copy, Debug, PartialEq, Eq, Structural)]
pub struct Pixel {
    pub x: isize,
    pub y: isize,
}

/// What a cell of the playfield shows.
#[derive(Clone, Copy, Debug, PartialEq, Eq, Structural)]
pub enum Tile {
    Sky,
    Bird,
    Wall,
}

/// Whether a position lies on the playfield.
pub open spec fn in_bounds(x: int, y: int) -> bool {
    0 <= x < SCREEN_WIDTH && 0 <= y < SCREEN_HEIGHT
}

/// The playfield with every cell `Sky`, as rows of cells.
pub open spec fn blank() -> Seq<Seq<Tile>> {
    Seq::new(SCREEN_HEIGHT as nat, |y: int| Seq::new(SCREEN_WIDTH as nat, |x: int| Tile::Sky))
}

/// Whether rows of cells have the playfield's dimensions.
pub open spec fn is_playfield(grid: Seq<Seq<Tile>>) -> bool {
    &&& grid.len() == SCREEN_HEIGHT
    &&& forall|y: int| 0 <= y < SCREEN_HEIGHT ==> (#[trigger] grid[y]).len() == SCREEN_WIDTH
}

/// A grid with the cell at column `x`, row `y` replaced.
pub open spec fn with_tile(grid: Seq<Seq<Tile>>, x: int, y: int, tile: Tile) -> Seq<Seq<Tile>> {
    grid.update(y, grid[y].update(x, tile))
}

/// The character that stands for a cell state.
pub open spec fn glyph(tile: Tile) -> char {
    match tile {
        Tile::Sky => ' ',
        Tile::Bird => 'B',
        Tile::Wall => '#',
    }
}

/// Characters in one rendered row: a glyph and a blank per cell, then the line end.
pub open spec fn rendered_row_len() -> int {
    2 * SCREEN_WIDTH + 2
}

/// Characters in a rendered playfield.
pub open spec fn rendered_len() -> int {
    SCREEN_HEIGHT * rendered_row_len()
}

/// The `k`-th character of a rendered playfield. Rows come top to bottom; in a
/// row each cell is its glyph followed by a blank, and the row ends with a line
/// feed and a carriage return.
pub open spec fn rendered_char(grid: Seq<Seq<Tile>>, k: int) -> char {
    let y = k / rendered_row_len();
    let c = k % rendered_row_len();
    if c == 2 * SCREEN_WIDTH {
        '\n'
    } else if c == 2 * SCREEN_WIDTH + 1 {
        '\r'
    } else if c % 2 == 0 {
        glyph(grid[y][c / 2])
    } else {
        ' '
    }
}

/// The text that shows a playfield.
pub open spec fn rendered(grid: Seq<Seq<Tile>>) -> Seq<char> {
    Seq::new(rendered_len() as nat, |k: int| rendered_char(grid, k))
}

/// The character that stands for a cell state.
pub fn glyph_of(tile: Tile) -> (c: char)
    ensures
        c == glyph(tile),
{
    match tile {
        Tile::Sky => ' ',
        Tile::Bird => 'B',
        Tile::Wall => '#',
    }
}

/// The cell buffer. It always has `SCREEN_HEIGHT` rows of `SCREEN_WIDTH` cells.
pub struct Screen {
    pixels: Vec<Vec<Tile>>,
}

impl View for Screen {
    type V = Seq<Seq<Tile>>;

    /// The rows of cells, top row first.
    closed spec fn view(&self) -> Seq<Seq<Tile>> {
        Seq::new(self.pixels@.len(), |y: int| self.pixels@[y]@)
    }
}

impl Screen {
    /// The buffer has the playfield's dimensions.
    pub open spec fn wf(&self) -> bool {
        is_playfield(self@)
    }

    /// A buffer with every cell `Sky`.
    pub fn new() -> (s: Screen)
        ensures
            s.wf(),
            s@ == blank(),
    {
        let mut s = Screen { pixels: Vec::new() };
        let mut y: isize = 0;
        while y < SCREEN_HEIGHT
            invariant
                0 <= y <= SCREEN_HEIGHT,
                s.pixels@.len() == y,
                forall|i: int| 0 <= i < y ==> (#[trigger] s.pixels@[i])@ == blank()[i],
            decreases SCREEN_HEIGHT - y,
        {
            let mut v2: Vec<Tile> = Vec::new();
            let mut x: isize = 0;
            while x < SCREEN_WIDTH
                invariant
                    0 <= x <= SCREEN_WIDTH,
                    v2@.len() == x,
                    forall|j: int| 0 <= j < x ==> v2@[j] == Tile::Sky,
                decreases SCREEN_WIDTH - x,
            {
                v2.push(Tile::Sky);
                x += 1;
            }
            assert(v2@ =~= blank()[y as int]);
            s.pixels.push(v2);
            y += 1;
        }
        assert(s@ =~= blank());
        s
    }

    /// Writes one cell. A position off the playfield is ignored.
    pub fn set(&mut self, pixel: &Pixel, tile: Tile)
        requires
            old(self).wf(),
        ensures
            final(self).wf(),
            in_bounds(pixel.x as int, pixel.y as int) ==> final(self)@ == with_tile(
                old(self)@,
                pixel.x as int,
                pixel.y as int,
                tile,
            ),
            !in_bounds(pixel.x as int, pixel.y as int) ==> final(self)@ == old(self)@,
    {
        if pixel.y < SCREEN_HEIGHT && pixel.y >= 0 && pixel.x < SCREEN_WIDTH && pixel.x >= 0 {
            assert(self@[pixel.y as int].len() == SCREEN_WIDTH);
            self.pixels[pixel.y as usize][pixel.x as usize] = tile;
            assert(self@ =~= with_tile(old(self)@, pixel.x as int, pixel.y as int, tile));
        }
    }

    /// Resets every cell to `Sky`.
    pub fn refresh(&mut self)
        requires
            old(self).wf(),
        ensures
            final(self).wf(),
            final(self)@ == blank(),
    {
        let mut i: usize = 0;
        while i < self.pixels.len()
            invariant
                self.wf(),
                0 <= i <= SCREEN_HEIGHT,
                forall|y: int| 0 <= y < i ==> (#[trigger] self@[y]) == blank()[y],
            decreases SCREEN_HEIGHT - i,
        {
            let mut j: usize = 0;
            assert(self@[0].len() == SCREEN_WIDTH);
            assert(self@[i as int].len() == SCREEN_WIDTH);
            while j < self.pixels[0].len()
                invariant
                    self.wf(),
                    0 <= i < SCREEN_HEIGHT,
                    0 <= j <= SCREEN_WIDTH,
                    forall|y: int| 0 <= y < i ==> (#[trigger] self@[y]) == blank()[y],
                    forall|x: int| 0 <= x < j ==> (#[trigger] self@[i as int][x]) == Tile::Sky,
                decreases SCREEN_WIDTH - j,
            {
                let ghost before = self@;
                assert(self@[0].len() == SCREEN_WIDTH);
                assert(self@[i as int].len() == SCREEN_WIDTH);
                self.pixels[i][j] = Tile::Sky;
                assert(self@ =~= with_tile(before, j as int, i as int, Tile::Sky));
                j += 1;
                assert(self@[0].len() == SCREEN_WIDTH);
            }
            assert(self@[0].len() == SCREEN_WIDTH);
            assert(self@[i as int] =~= blank()[i as int]);
            i += 1;
        }
        assert(self@ =~= blank());
    }

    /// The text that shows the buffer, for the caller to print.
    pub fn render(&self) -> (text: Vec<char>)
        requires
            self.wf(),
        ensures
            text@ == rendered(self@),
    {
        let mut text: Vec<char> = Vec::new();
        let mut y: usize = 0;
        while y < self.pixels.len()
            invariant
                self.wf(),
                0 <= y <= SCREEN_HEIGHT,
                self.pixels@.len() == SCREEN_HEIGHT,
                rendered_row_len() == 102,
                text@.len() == y * 102,
                forall|k: int| 0 <= k < text@.len() ==> text@[k] == rendered_char(self@, k),
            decreases SCREEN_HEIGHT - y,
        {
            let row = &self.pixels[y];
            assert(row@ == self@[y as int]);
            let mut x: usize = 0;
            while x < row.len()
                invariant
                    self.wf(),
                    0 <= y < SCREEN_HEIGHT,
                    0 <= x <= SCREEN_WIDTH,
                    row@ == self@[y as int],
                    row@.len() == SCREEN_WIDTH,
                    rendered_row_len() == 102,
                    text@.len() == y * 102 + 2 * x,
                    forall|k: int| 0 <= k < text@.len() ==> text@[k] == rendered_char(self@, k),
                decreases SCREEN_WIDTH - x,
            {
                let ghost k0 = text@.len() as int;
                assert(k0 / 102 == y && k0 % 102 == 2 * x && (k0 + 1) / 102 == y && (k0 + 1) % 102
                    == 2 * x + 1);
                text.push(glyph_of(row[x]));
                text.push(' ');
                x += 1;
            }
            let ghost k0 = text@.len() as int;
            assert(k0 / 102 == y && k0 % 102 == 100 && (k0 + 1) / 102 == y && (k0 + 1) % 102 == 101);
            text.push('\n');
            text.push('\r');
            y += 1;
        }
        assert(text@ =~= rendered(self@));
        text
    }

    /// The state of one cell, or `None` for a position off the playfield.
    pub fn get(&self, pixel: &Pixel) -> (tile: Option<Tile>)
        requires
            self.wf(),
        ensures
            tile == if in_bounds(pixel.x as int, pixel.y as int) {
                Some(self@[pixel.y as int][pixel.x as int])
            } else {
                None
            },
    {
        if pixel.y < SCREEN_HEIGHT && pixel.y >= 0 && pixel.x < SCREEN_WIDTH && pixel.x >= 0 {
            assert(self@[pixel.y as int].len() == SCREEN_WIDTH);
            Some(self.pixels[pixel.y as usize][pixel.x as usize])
        } else {
            None
        }
    }
}

} // verus!
