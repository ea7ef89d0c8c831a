//! The program grid: a rectangle of bytes addressed as a torus.

use crate::text::append;
use rand::Rng;
use vstd::prelude::*;
use vstd::string::StringSliceAdditionalSpecFns;

verus! {

/// The byte that ends a row of program text.
pub const NEWLINE: u8 = 10;

/// The byte that short rows are filled up with.
pub const BLANK: u8 = 32;

/// The rows of a program text, read left to right: a newline opens a new
/// row, every other byte extends the row that is open. A text therefore
/// always has one row more than it has newlines.
pub open spec fn split_rows(text: Seq<u8>) -> Seq<Seq<u8>>
    decreases text.len(),
{
    if text.len() == 0 {
        seq![Seq::<u8>::empty()]
    } else {
        let before = split_rows(text.drop_last());
        if text.last() == NEWLINE {
            before.push(Seq::<u8>::empty())
        } else {
            before.update(before.len() - 1, before.last().push(text.last()))
        }
    }
}

/// The length of the longest row.
pub open spec fn widest(rows: Seq<Seq<u8>>) -> nat
    decreases rows.len(),
{
    if rows.len() == 0 {
        0
    } else if rows.last().len() > widest(rows.drop_last()) {
        rows.last().len()
    } else {
        widest(rows.drop_last())
    }
}

/// A row brought to `width` cells: its own bytes first, then blanks.
pub open spec fn pad_row(row: Seq<u8>, width: nat) -> Seq<u8> {
    Seq::new(
        width,
        |x: int|
            if x < row.len() {
                row[x]
            } else {
                BLANK
            },
    )
}

/// The grid that a program text describes: its rows, each padded with
/// blanks to the length of the longest one.
pub open spec fn grid_of(text: Seq<u8>) -> Seq<Seq<u8>> {
    let rows = split_rows(text);
    Seq::new(rows.len(), |y: int| pad_row(rows[y], widest(rows)))
}

/// A grid is rectangular when every row has the length of the first.
pub open spec fn rectangular(grid: Seq<Seq<u8>>) -> bool {
    forall|y: int| 0 <= y < grid.len() ==> (#[trigger] grid[y]).len() == grid[0].len()
}

/// A grid can be addressed when it is rectangular and holds at least one
/// cell.
pub open spec fn addressable(grid: Seq<Seq<u8>>) -> bool {
    &&& rectangular(grid)
    &&& grid.len() > 0
    &&& grid[0].len() > 0
}

/// The cell at column `x`, row `y` of the torus: both coordinates are taken
/// modulo the grid's extent.
pub open spec fn cell(grid: Seq<Seq<u8>>, x: int, y: int) -> u8
    recommends
        addressable(grid),
{
    grid[y % (grid.len() as int)][x % (grid[0].len() as int)]
}

/// The grid with the cell at column `x`, row `y` of the torus replaced by
/// `value`.
pub open spec fn put_cell(grid: Seq<Seq<u8>>, x: int, y: int, value: u8) -> Seq<Seq<u8>>
    recommends
        addressable(grid),
{
    let row = y % (grid.len() as int);
    let column = x % (grid[0].len() as int);
    grid.update(row, grid[row].update(column, value))
}

/// A cell as the grid is shown: a printable ASCII byte as it is, any other
/// byte as the characters `â–¡`.
pub open spec fn shown_cell(byte: u8) -> Seq<u8> {
    if 0x20 <= byte <= 0x7e {
        seq![byte]
    } else {
        "â–¡".spec_bytes()
    }
}

/// A row as the grid is shown: its cells one after another.
pub open spec fn shown_row(row: Seq<u8>) -> Seq<u8>
    decreases row.len(),
{
    if row.len() == 0 {
        Seq::<u8>::empty()
    } else {
        shown_row(row.drop_last()) + shown_cell(row.last())
    }
}

/// The grid as it is shown: a line for each row.
pub open spec fn shown_grid(grid: Seq<Seq<u8>>) -> Seq<u8>
    decreases grid.len(),
{
    if grid.len() == 0 {
        Seq::<u8>::empty()
    } else {
        shown_grid(grid.drop_last()) + shown_row(grid.last()) + seq![NEWLINE]
    }
}

/// The views of a vector of rows.
pub open spec fn rows_of(field: Seq<Vec<u8>>) -> Seq<Seq<u8>> {
    Seq::new(field.len(), |y: int| field[y]@)
}

/// No row is longer than `widest` says.
pub proof fn lemma_widest_bounds(rows: Seq<Seq<u8>>, y: int)
    requires
        0 <= y < rows.len(),
    ensures
        rows[y].len() <= widest(rows),
    decreases rows.len(),
{
    if y < rows.len() - 1 {
        lemma_widest_bounds(rows.drop_last(), y);
    }
}

/// Writing a cell and reading it back gives the value written, whatever
/// multiples of the grid's extent lie between the two addresses.
pub proof fn lemma_set_then_get(grid: Seq<Seq<u8>>, x: int, y: int, value: u8, x2: int, y2: int)
    requires
        addressable(grid),
        x2 % (grid[0].len() as int) == x % (grid[0].len() as int),
        y2 % (grid.len() as int) == y % (grid.len() as int),
    ensures
        addressable(put_cell(grid, x, y, value)),
        cell(put_cell(grid, x, y, value), x2, y2) == value,
        cell(put_cell(grid, x, y, value), x, y) == value,
{
    let after = put_cell(grid, x, y, value);
    assert(after.len() == grid.len());
    assert(after[0].len() == grid[0].len());
    assert forall|r: int| 0 <= r < after.len() implies (#[trigger] after[r]).len()
        == after[0].len() by {
        assert(grid[r].len() == grid[0].len());
    }
}

/// Writing a cell changes no cell at another address of the torus.
pub proof fn lemma_set_keeps_others(
    grid: Seq<Seq<u8>>,
    x: int,
    y: int,
    value: u8,
    x2: int,
    y2: int,
)
    requires
        addressable(grid),
        x2 % (grid[0].len() as int) != x % (grid[0].len() as int) || y2 % (grid.len() as int) != y
            % (grid.len() as int),
    ensures
        cell(put_cell(grid, x, y, value), x2, y2) == cell(grid, x2, y2),
{
    let after = put_cell(grid, x, y, value);
    let row = y % (grid.len() as int);
    assert(after[0].len() == grid[0].len()) by {
        assert(grid[row].len() == grid[0].len());
    }
}

/// Addresses that differ by whole multiples of the grid's width and height
/// name the same cell.
pub proof fn lemma_get_periodic(grid: Seq<Seq<u8>>, x: int, y: int, k: nat)
    requires
        addressable(grid),
    ensures
        cell(grid, x + k * grid[0].len(), y + k * grid.len()) == cell(grid, x, y),
{
    let w = grid[0].len() as int;
    let h = grid.len() as int;
    vstd::arithmetic::div_mod::lemma_mod_multiples_vanish(k as int, x, w);
    vstd::arithmetic::div_mod::lemma_mod_multiples_vanish(k as int, y, h);
    assert(x + k * w == w * k + x) by (nonlinear_arith);
    assert(y + k * h == h * k + y) by (nonlinear_arith);
}

pub struct World {
    width: usize,
    height: usize,
    field: Vec<Vec<u8>>,
}

impl View for World {
    type V = Seq<Seq<u8>>;

    closed spec fn view(&self) -> Seq<Seq<u8>> {
        rows_of(self.field@)
    }
}

/// One byte from the thread's random generator.
///
/// Calls `rand::thread_rng` and `rand::Rng::gen` for a `u8`. Nothing is
/// claimed of the byte that comes back.
#[verifier::external_body]
fn random_byte() -> (byte: u8) {
    rand::thread_rng().gen()
}

impl World {
    /// The width recorded at construction.
    pub closed spec fn spec_width(&self) -> usize {
        self.width
    }

    /// The height recorded at construction.
    pub closed spec fn spec_height(&self) -> usize {
        self.height
    }

    /// The grid is rectangular with the recorded width and height.
    pub open spec fn wf(&self) -> bool {
        &&& self@.len() == self.spec_height()
        &&& forall|y: int| 0 <= y < self@.len() ==> (#[trigger] self@[y]).len() == self.spec_width()
    }

    /// A well-formed world with a cell in it is addressable.
    pub proof fn lemma_wf_addressable(&self)
        requires
            self.wf(),
            self.spec_width() > 0,
            self.spec_height() > 0,
        ensures
            addressable(self@),
            self@.len() == self.spec_height(),
            self@[0].len() == self.spec_width(),
    {
    }

    #[verifier::when_used_as_spec(spec_width)]
    pub fn width(&self) -> (w: usize)
        ensures
            w == self.spec_width(),
    {
        self.width
    }

    #[verifier::when_used_as_spec(spec_height)]
    pub fn height(&self) -> (h: usize)
        ensures
            h == self.spec_height(),
    {
        self.height
    }

    /// The rows of the grid, top to bottom.
    pub fn rows(&self) -> (rows: &Vec<Vec<u8>>)
        ensures
            rows_of(rows@) == self@,
    {
        &self.field
    }

    /// Builds the grid of a program text: rows are split at newlines and
    /// padded with blanks to the longest row. The text's bytes are taken as
    /// they are. A text without any byte but newlines gives a grid of width
    /// zero, which cannot be addressed.
    pub fn from_source_string(source: &str) -> (world: World)
        ensures
            world.wf(),
            world@ == grid_of(source.spec_bytes()),
            world.height() == split_rows(source.spec_bytes()).len(),
            world.width() == widest(split_rows(source.spec_bytes())),
            world.height() >= 1,
    {
        World::from_bytes(source.as_bytes())
    }

    /// Builds the grid of a program text given as bytes.
    pub fn from_bytes(text: &[u8]) -> (world: World)
        ensures
            world.wf(),
            world@ == grid_of(text@),
            world.height() == split_rows(text@).len(),
            world.width() == widest(split_rows(text@)),
            world.height() >= 1,
    {
        let mut rows: Vec<Vec<u8>> = Vec::new();
        let mut open_row: Vec<u8> = Vec::new();
        let mut width: usize = 0;
        let mut i: usize = 0;
        assert(text@.take(0) =~= Seq::<u8>::empty());
        assert(rows_of(rows@).push(open_row@) =~= seq![Seq::<u8>::empty()]);
        assert(rows_of(rows@) =~= Seq::<Seq<u8>>::empty());
        while i < text.len()
            invariant
                i <= text.len(),
                split_rows(text@.take(i as int)) == rows_of(rows@).push(open_row@),
                width == widest(rows_of(rows@)),
                open_row@.len() <= i,
                rows@.len() <= i,
            decreases text.len() - i,
        {
            let byte = text[i];
            proof {
                assert(text@.take(i + 1).drop_last() =~= text@.take(i as int));
                assert(text@.take(i + 1).last() == byte);
            }
            let ghost done = rows_of(rows@);
            if byte == NEWLINE {
                if open_row.len() > width {
                    width = open_row.len();
                }
                let ghost closed_row = open_row@;
                rows.push(open_row);
                open_row = Vec::new();
                proof {
                    assert(rows_of(rows@) =~= done.push(closed_row));
                    assert(rows_of(rows@).drop_last() =~= done);
                }
            } else {
                let ghost shorter = open_row@;
                open_row.push(byte);
                proof {
                    assert(done.push(shorter).update(done.len() as int, shorter.push(byte))
                        =~= done.push(open_row@));
                }
            }
            i = i + 1;
        }
        if open_row.len() > width {
            width = open_row.len();
        }
        let ghost done = rows_of(rows@);
        let ghost last_row = open_row@;
        rows.push(open_row);
        proof {
            assert(text@.take(text@.len() as int) =~= text@);
            assert(rows_of(rows@) =~= done.push(last_row));
            assert(rows_of(rows@).drop_last() =~= done);
        }
        let ghost split = rows_of(rows@);
        let height = rows.len();
        let mut field: Vec<Vec<u8>> = Vec::new();
        let mut y: usize = 0;
        while y < height
            invariant
                y <= height,
                height == rows@.len(),
                split == rows_of(rows@),
                width == widest(split),
                field@.len() == y,
                forall|r: int| 0 <= r < y ==> (#[trigger] field@[r])@ == pad_row(split[r], width as nat),
            decreases height - y,
        {
            let row = &rows[y];
            proof {
                lemma_widest_bounds(split, y as int);
            }
            let mut padded: Vec<u8> = Vec::new();
            let mut x: usize = 0;
            while x < width
                invariant
                    x <= width,
                    padded@.len() == x,
                    forall|c: int|
                        0 <= c < x ==> #[trigger] padded@[c] == if c < row@.len() {
                            row@[c]
                        } else {
                            BLANK
                        },
                decreases width - x,
            {
                let byte = if x < row.len() {
                    row[x]
                } else {
                    BLANK
                };
                padded.push(byte);
                x = x + 1;
            }
            proof {
                assert(padded@ =~= pad_row(split[y as int], width as nat));
            }
            field.push(padded);
            y = y + 1;
        }
        let world = World { width, height, field };
        proof {
            assert(world@ =~= grid_of(text@));
        }
        world
    }

    /// A grid of the given extent whose cells are drawn at random.
    pub fn from_random(width: usize, height: usize) -> (world: World)
        ensures
            world.wf(),
            world.width() == width,
            world.height() == height,
    {
        let mut field: Vec<Vec<u8>> = Vec::new();
        let mut y: usize = 0;
        while y < height
            invariant
                y <= height,
                field@.len() == y,
                forall|r: int| 0 <= r < y ==> (#[trigger] field@[r])@.len() == width,
            decreases height - y,
        {
            let mut line: Vec<u8> = Vec::new();
            let mut x: usize = 0;
            while x < width
                invariant
                    x <= width,
                    line@.len() == x,
                decreases width - x,
            {
                line.push(random_byte());
                x = x + 1;
            }
            field.push(line);
            y = y + 1;
        }
        World { width, height, field }
    }

    /// The grid as text, a line for each row, for a terminal to show.
    pub fn render(&self) -> (text: Vec<u8>)
        ensures
            text@ == shown_grid(self@),
    {
        let mut text: Vec<u8> = Vec::new();
        let ghost grid = self@;
        let mut y: usize = 0;
        proof {
            assert(grid.take(0) =~= Seq::<Seq<u8>>::empty());
        }
        while y < self.field.len()
            invariant
                y <= self.field@.len(),
                grid == self@,
                text@ == shown_grid(grid.take(y as int)),
            decreases self.field@.len() - y,
        {
            let line = &self.field[y];
            let ghost row = grid[y as int];
            let ghost before = text@;
            let mut x: usize = 0;
            proof {
                assert(row.take(0) =~= Seq::<u8>::empty());
                assert(text@ =~= before + shown_row(row.take(0)));
            }
            while x < line.len()
                invariant
                    x <= line@.len(),
                    row == line@,
                    text@ == before + shown_row(row.take(x as int)),
                decreases line@.len() - x,
            {
                let elem = line[x];
                if 0x20 <= elem && elem <= 0x7e {
                    text.push(elem);
                } else {
                    append(&mut text, "â–¡".as_bytes());
                }
                proof {
                    assert(row.take(x + 1).drop_last() =~= row.take(x as int));
                    assert(row.take(x + 1).last() == elem);
                    assert(text@ =~= before + shown_row(row.take(x + 1)));
                }
                x = x + 1;
            }
            text.push(NEWLINE);
            proof {
                assert(row.take(row.len() as int) =~= row);
                assert(grid.take(y + 1).drop_last() =~= grid.take(y as int));
                assert(grid.take(y + 1).last() == row);
                assert(text@ =~= shown_grid(grid.take(y + 1)));
            }
            y = y + 1;
        }
        proof {
            assert(grid.take(grid.len() as int) =~= grid);
        }
        text
    }

    /// Reads the cell at column `x`, row `y` of the torus.
    pub fn get(&self, x: usize, y: usize) -> (value: u8)
        requires
            self.wf(),
            self.width() > 0,
            self.height() > 0,
        ensures
            value == cell(self@, x as int, y as int),
    {
        assert(self@[(y % self.height) as int].len() == self.width);
        self.field[y % self.height][x % self.width]
    }

    /// Writes the cell at column `x`, row `y` of the torus.
    pub fn set(&mut self, x: usize, y: usize, value: u8)
        requires
            old(self).wf(),
            old(self).width() > 0,
            old(self).height() > 0,
        ensures
            final(self).wf(),
            final(self).width() == old(self).width(),
            final(self).height() == old(self).height(),
            final(self)@ == put_cell(old(self)@, x as int, y as int, value),
    {
        let row = y % self.height;
        let column = x % self.width;
        assert(self@[row as int].len() == self.width);
        assert(self@[0].len() == self.width);
        self.field[row][column] = value;
        proof {
            assert(self@ =~= put_cell(old(self)@, x as int, y as int, value));
            assert forall|r: int| 0 <= r < self@.len() implies (#[trigger] self@[r]).len()
                == self.width by {
                assert(old(self)@[r].len() == self.width);
            }
        }
    }
}

} // verus!
