//! The interpreter as a mathematical machine: its state, and what one tick
//! and a whole run make of it.

use crate::interpreter::operations::{effect, QUOTE, RANDOM, READ_BYTE, READ_INTEGER};
use crate::interpreter::stack::stack_text;
use crate::interpreter::{Demand, Direction, Mode, RunError};
use crate::text::{decimal_digits, latin1_text, line_len};
use crate::world::cell;
use vstd::prelude::*;
use vstd::string::StringSliceAdditionalSpecFns;

verus! {

/// What a tick reports: `Ok(None)` to go on, `Ok(Some(()))` for a halt, an
/// error for a run that cannot go on.
pub type Verdict = Result<Option<()>, RunError>;

/// The state of an interpreter.
pub struct Machine {
    /// The program grid, row by row.
    pub grid: Seq<Seq<u8>>,
    /// The operand stack, bottom first.
    pub stack: Seq<i64>,
    /// The direction of travel.
    pub direction: Direction,
    /// The pointer's column.
    pub x: nat,
    /// The pointer's row.
    pub y: nat,
    /// Whether cells are executed or pushed.
    pub mode: Mode,
    /// The input that has not been read yet.
    pub input: Seq<u8>,
    /// The output written so far.
    pub output: Seq<u8>,
    /// Whether every tick starts with a snapshot and a pause.
    pub debug: bool,
}

/// The position one cell further on a ring of `n` cells.
pub open spec fn ring_next(v: nat, n: nat) -> nat {
    if v % n + 1 == n {
        0
    } else {
        v % n + 1
    }
}

/// The position one cell back on a ring of `n` cells.
pub open spec fn ring_prev(v: nat, n: nat) -> nat {
    if v % n == 0 {
        (n - 1) as nat
    } else {
        (v % n - 1) as nat
    }
}

/// A direction's name.
pub open spec fn direction_text(direction: Direction) -> Seq<u8> {
    match direction {
        Direction::Up => "Up".spec_bytes(),
        Direction::Down => "Down".spec_bytes(),
        Direction::Left => "Left".spec_bytes(),
        Direction::Right => "Right".spec_bytes(),
    }
}

/// A mode's name.
pub open spec fn mode_text(mode: Mode) -> Seq<u8> {
    match mode {
        Mode::Interpret => "Interpret".spec_bytes(),
        Mode::AsciiPush => "AsciiPush".spec_bytes(),
    }
}

/// A position as a snapshot shows it: column and row in brackets.
pub open spec fn position_text(x: nat, y: nat) -> Seq<u8> {
    "(".spec_bytes() + decimal_digits(x) + ", ".spec_bytes() + decimal_digits(y) + ")".spec_bytes()
}

/// One line of a snapshot's summary: a label, a value and a line feed.
pub open spec fn field_line(label: Seq<u8>, value: Seq<u8>) -> Seq<u8> {
    label + value + "\n".spec_bytes()
}

/// One cell of the grid as a snapshot shows it: three columns wide, in
/// square brackets where the pointer stands on it.
pub open spec fn cell_text(byte: u8, marked: bool) -> Seq<u8> {
    if marked {
        "[".spec_bytes() + latin1_text(byte) + "]".spec_bytes()
    } else {
        " ".spec_bytes() + latin1_text(byte) + " ".spec_bytes()
    }
}

/// The cells of a row as a snapshot shows them; the cell in column
/// `marked` is the pointer's.
pub open spec fn row_text(row: Seq<u8>, marked: int) -> Seq<u8>
    decreases row.len(),
{
    if row.len() == 0 {
        Seq::<u8>::empty()
    } else {
        row_text(row.drop_last(), marked) + cell_text(row.last(), marked == row.len() - 1)
    }
}

/// The grid as a snapshot shows it, a line for each row; the pointer
/// stands in column `x` of row `y`.
pub open spec fn grid_text(grid: Seq<Seq<u8>>, x: int, y: int) -> Seq<u8>
    decreases grid.len(),
{
    if grid.len() == 0 {
        Seq::<u8>::empty()
    } else {
        grid_text(grid.drop_last(), x, y) + row_text(
            grid.last(),
            if y == grid.len() - 1 {
                x
            } else {
                -1
            },
        ) + "\n".spec_bytes()
    }
}

impl Machine {
    /// The byte under the pointer.
    pub open spec fn instruction(self) -> u8 {
        cell(self.grid, self.x as int, self.y as int)
    }

    /// Whether the next turn draws a direction at random.
    pub open spec fn draws(self) -> bool {
        self.mode == Mode::Interpret && self.instruction() == RANDOM
    }

    /// What the instruction under the pointer will read from the input.
    pub open spec fn demand(self) -> Demand {
        if self.mode == Mode::Interpret && self.instruction() == READ_INTEGER {
            Demand::Line
        } else if self.mode == Mode::Interpret && self.instruction() == READ_BYTE {
            Demand::Byte
        } else {
            Demand::Nothing
        }
    }

    /// The machine with the pointer moved one cell in the direction of
    /// travel, around the edge of the grid where it stands on one.
    pub open spec fn forward(self) -> Machine {
        let width = self.grid[0].len();
        let height = self.grid.len();
        match self.direction {
            Direction::Up => Machine { y: ring_prev(self.y, height), ..self },
            Direction::Down => Machine { y: ring_next(self.y, height), ..self },
            Direction::Left => Machine { x: ring_prev(self.x, width), ..self },
            Direction::Right => Machine { x: ring_next(self.x, width), ..self },
        }
    }

    /// The first lines of a snapshot: position, instruction, direction,
    /// stack and mode.
    pub open spec fn summary(self) -> Seq<u8> {
        "\n=== Step Debug Info ===\n".spec_bytes() + field_line(
            "Position: ".spec_bytes(),
            position_text(self.x, self.y),
        ) + field_line("Current instruction: ".spec_bytes(), latin1_text(self.instruction()))
            + field_line("Direction: ".spec_bytes(), direction_text(self.direction)) + field_line(
            "Stack: ".spec_bytes(),
            stack_text(self.stack),
        ) + field_line("Mode: ".spec_bytes(), mode_text(self.mode))
    }

    /// The snapshot of the machine: the summary, the grid with the
    /// pointer's cell marked, and a closing rule.
    pub open spec fn snapshot(self) -> Seq<u8> {
        self.summary() + grid_text(self.grid, self.x as int, self.y as int)
            + "==================\n\n".spec_bytes()
    }

    /// The machine after the pause of a tick with introspection: the
    /// snapshot is written, and one line of input is read and dropped.
    pub open spec fn gate(self) -> Machine {
        Machine {
            output: self.output + self.snapshot(),
            input: self.input.skip(line_len(self.input) as int),
            ..self
        }
    }

    /// What the instruction under the pointer makes of the machine, and the
    /// move that follows it. In string mode a cell is pushed as it is, but
    /// for the quote that ends the mode. After an instruction that lets the
    /// run go on the pointer moves one cell; the bridge has moved it once
    /// already, so the cell behind the bridge is passed over, around the
    /// edge of the grid as anywhere else.
    pub open spec fn turn(self, drawn: Direction) -> (Machine, Verdict) {
        let op = self.instruction();
        match self.mode {
            Mode::Interpret => {
                let (after, verdict) = effect(self, op, drawn);
                if verdict == Ok::<Option<()>, RunError>(None) {
                    (after.forward(), verdict)
                } else {
                    (after, verdict)
                }
            },
            Mode::AsciiPush => {
                if op == QUOTE {
                    (Machine { mode: Mode::Interpret, ..self }.forward(), Ok(None))
                } else {
                    (Machine { stack: self.stack.push(op as i64), ..self }.forward(), Ok(None))
                }
            },
        }
    }

    /// One tick: the pause, where introspection is on, then the turn.
    /// `drawn` is the direction that a random turn takes.
    pub open spec fn tick(self, drawn: Direction) -> (Machine, Verdict) {
        if self.debug {
            self.gate().turn(drawn)
        } else {
            self.turn(drawn)
        }
    }

    /// The machine after the ticks that `draws` gives the random
    /// directions for, one for each tick, and what the last of them
    /// reported. Once a tick halts or fails the machine stays as it is.
    pub open spec fn run(self, draws: Seq<Direction>) -> (Machine, Verdict)
        decreases draws.len(),
    {
        if draws.len() == 0 {
            (self, Ok(None))
        } else {
            let (before, verdict) = self.run(draws.drop_last());
            if verdict == Ok::<Option<()>, RunError>(None) {
                before.tick(draws.last())
            } else {
                (before, verdict)
            }
        }
    }
}

} // verus!
