//! The interpreter core: pointer, direction, mode, stack and the two
//! streams, and the loop that drives them.

pub mod debug;
pub mod laws;
pub mod machine;
pub mod operations;
pub mod stack;

pub use debug::DebugOutput;
pub use machine::{Machine, Verdict};
pub use stack::Stack;

use crate::text::{append, latin1_text, line_end, line_len, push_decimal, push_latin1};
use crate::world::{addressable, World};
use machine::{direction_text, field_line, grid_text, mode_text, position_text, row_text};
use operations::{apply, execute_instruction, QUOTE};
use vstd::prelude::*;
use vstd::string::StringSliceAdditionalSpecFns;

verus! {

/// A direction of travel on the grid.
#[derive(Debug, Clone, Copy, PartialEq, Eq, Structural)]
pub enum Direction {
    Up,
    Down,
    Left,
    Right,
}

/// What the interpreter does with the cell under the pointer.
#[derive(Debug, Clone, Copy, PartialEq, Eq, Structural)]
pub enum Mode {
    /// The cell is executed as an instruction.
    Interpret,
    /// The cell is pushed as it is.
    AsciiPush,
}

/// Why a run ended without a halt.
#[derive(Debug, Clone, Copy, PartialEq, Eq, Structural)]
pub enum RunError {
    /// The line that a read of an integer found is no integer.
    MalformedInteger,
    /// The run was still going after as many ticks as it was given.
    TickLimit,
}

/// What the instruction under the pointer will read from the input.
#[derive(Debug, Clone, Copy, PartialEq, Eq, Structural)]
pub enum Demand {
    /// Nothing.
    Nothing,
    /// One line.
    Line,
    /// One byte.
    Byte,
}

impl RunError {
    /// The error in words.
    pub fn message(&self) -> (text: &'static str)
        ensures
            text@ == match *self {
                RunError::MalformedInteger => "invalid integer in input"@,
                RunError::TickLimit => "tick limit reached"@,
            },
    {
        match self {
            RunError::MalformedInteger => "invalid integer in input",
            RunError::TickLimit => "tick limit reached",
        }
    }
}

pub struct Interpreter {
    pub(crate) world: World,
    pub(crate) stack: Stack,
    pub(crate) direction: Direction,
    pub(crate) x: usize,
    pub(crate) y: usize,
    pub(crate) mode: Mode,
    pub(crate) input: Vec<u8>,
    pub(crate) cursor: usize,
    pub(crate) output: Vec<u8>,
    pub(crate) debug: DebugOutput,
}

impl View for Interpreter {
    type V = Machine;

    open(crate) spec fn view(&self) -> Machine {
        Machine {
            grid: self.world@,
            stack: self.stack@,
            direction: self.direction,
            x: self.x as nat,
            y: self.y as nat,
            mode: self.mode,
            input: self.input@.skip(self.cursor as int),
            output: self.output@,
            debug: self.debug.is_enabled(),
        }
    }
}

impl Interpreter {
    /// The grid can be addressed, and no more input has been read than
    /// there is.
    pub open(crate) spec fn wf(&self) -> bool {
        &&& self.world.wf()
        &&& self.world.width() > 0
        &&& self.world.height() > 0
        &&& self.cursor <= self.input@.len()
    }

    /// An interpreter for `world` with the pointer in column `x` of row
    /// `y`, an empty stack, `input` to read and nothing written yet.
    pub fn new(
        world: World,
        x: usize,
        y: usize,
        direction: Direction,
        input: Vec<u8>,
        debug_enabled: bool,
    ) -> (interpreter: Self)
        requires
            world.wf(),
            world.width() > 0,
            world.height() > 0,
        ensures
            interpreter.wf(),
            interpreter@ == (Machine {
                grid: world@,
                stack: Seq::<i64>::empty(),
                direction,
                x: x as nat,
                y: y as nat,
                mode: Mode::Interpret,
                input: input@,
                output: Seq::<u8>::empty(),
                debug: debug_enabled,
            }),
    {
        let interpreter = Self {
            world,
            stack: Stack::new(),
            direction,
            x,
            y,
            mode: Mode::Interpret,
            input,
            cursor: 0,
            output: Vec::new(),
            debug: DebugOutput::new(debug_enabled),
        };
        proof {
            assert(interpreter.input@.skip(0) =~= input@);
        }
        interpreter
    }

    /// The pointer's column and row.
    pub fn get_position(&self) -> (position: (usize, usize))
        ensures
            position.0 == self@.x,
            position.1 == self@.y,
    {
        (self.x, self.y)
    }

    /// The byte under the pointer.
    pub fn get_current_instruction(&self) -> (instruction: u8)
        requires
            self.wf(),
        ensures
            instruction == self@.instruction(),
    {
        self.world.get(self.x, self.y)
    }

    /// The direction of travel.
    pub fn get_direction(&self) -> (direction: &Direction)
        ensures
            *direction == self@.direction,
    {
        &self.direction
    }

    /// The operand stack.
    pub fn get_stack(&self) -> (stack: &Stack)
        ensures
            stack@ == self@.stack,
    {
        &self.stack
    }

    /// The mode.
    pub fn get_mode(&self) -> (mode: &Mode)
        ensures
            *mode == self@.mode,
    {
        &self.mode
    }

    /// The switch for introspection.
    pub fn get_debug(&self) -> (debug: &DebugOutput)
        ensures
            debug.is_enabled() == self@.debug,
    {
        &self.debug
    }

    /// The grid.
    pub fn get_world(&self) -> (world: &World)
        ensures
            world@ == self@.grid,
            self.wf() ==> world.wf() && world.width() > 0 && world.height() > 0,
    {
        &self.world
    }

    /// The output written so far.
    pub fn get_output(&self) -> (output: &Vec<u8>)
        ensures
            output@ == self@.output,
    {
        &self.output
    }

    /// Moves the pointer one cell in the direction of travel, around the
    /// edge of the grid where it stands on one.
    pub fn forward(&mut self)
        requires
            old(self).wf(),
        ensures
            final(self).wf(),
            final(self)@ == old(self)@.forward(),
    {
        proof {
            self.world.lemma_wf_addressable();
        }
        let width = self.world.width();
        let height = self.world.height();
        match self.direction {
            Direction::Up => {
                let row = self.y % height;
                self.y = if row == 0 {
                    height - 1
                } else {
                    row - 1
                };
            },
            Direction::Down => {
                let row = self.y % height;
                self.y = if row + 1 == height {
                    0
                } else {
                    row + 1
                };
            },
            Direction::Left => {
                let column = self.x % width;
                self.x = if column == 0 {
                    width - 1
                } else {
                    column - 1
                };
            },
            Direction::Right => {
                let column = self.x % width;
                self.x = if column + 1 == width {
                    0
                } else {
                    column + 1
                };
            },
        }
    }

    /// Appends the grid, as a snapshot shows it, to `out`.
    pub fn print_grid(&self, out: &mut Vec<u8>)
        requires
            self.wf(),
        ensures
            final(out)@ == old(out)@ + grid_text(self@.grid, self@.x as int, self@.y as int),
    {
        proof {
            self.world.lemma_wf_addressable();
        }
        let height = self.world.height();
        let width = self.world.width();
        let ghost grid = self.world@;
        let ghost px = self.x as int;
        let ghost py = self.y as int;
        let mut y: usize = 0;
        proof {
            assert(grid.take(0) =~= Seq::<Seq<u8>>::empty());
            assert(out@ =~= old(out)@ + grid_text(grid.take(0), px, py));
        }
        while y < height
            invariant
                y <= height,
                self.wf(),
                grid == self.world@,
                px == self.x,
                py == self.y,
                height == self.world.height(),
                width == self.world.width(),
                addressable(grid),
                grid.len() == height,
                grid[0].len() == width,
                out@ == old(out)@ + grid_text(grid.take(y as int), px, py),
            decreases height - y,
        {
            let ghost row = grid[y as int];
            let ghost mark: int = if py == y {
                px
            } else {
                -1
            };
            let ghost before = out@;
            let mut x: usize = 0;
            proof {
                assert(row.take(0) =~= Seq::<u8>::empty());
                assert(out@ =~= before + row_text(row.take(0), mark));
            }
            while x < width
                invariant
                    x <= width,
                    y < height,
                    self.wf(),
                    grid == self.world@,
                    px == self.x,
                    py == self.y,
                    height == self.world.height(),
                    width == self.world.width(),
                    addressable(grid),
                    grid.len() == height,
                    grid[0].len() == width,
                    row == grid[y as int],
                    row.len() == width,
                    mark == if py == y {
                        px
                    } else {
                        -1
                    },
                    out@ == before + row_text(row.take(x as int), mark),
                decreases width - x,
            {
                let byte = self.world.get(x, y);
                proof {
                    vstd::arithmetic::div_mod::lemma_small_mod(x as nat, width as nat);
                    vstd::arithmetic::div_mod::lemma_small_mod(y as nat, height as nat);
                    assert(byte == row[x as int]);
                }
                if x == self.x && y == self.y {
                    append(out, "[".as_bytes());
                    push_latin1(out, byte);
                    append(out, "]".as_bytes());
                } else {
                    append(out, " ".as_bytes());
                    push_latin1(out, byte);
                    append(out, " ".as_bytes());
                }
                proof {
                    assert(row.take(x + 1).drop_last() =~= row.take(x as int));
                    assert(row.take(x + 1).last() == byte);
                    assert(out@ =~= before + row_text(row.take(x + 1), mark));
                }
                x = x + 1;
            }
            append(out, "\n".as_bytes());
            proof {
                assert(row.take(width as int) =~= row);
                assert(grid.take(y + 1).drop_last() =~= grid.take(y as int));
                assert(grid.take(y + 1).last() == row);
                assert(out@ =~= old(out)@ + grid_text(grid.take(y + 1), px, py));
            }
            y = y + 1;
        }
        proof {
            assert(grid.take(height as int) =~= grid);
        }
    }

    /// Appends one line of a snapshot's summary to `out`.
    fn push_field(out: &mut Vec<u8>, label: &str, value: &[u8])
        ensures
            final(out)@ == old(out)@ + field_line(label.spec_bytes(), value@),
    {
        append(out, label.as_bytes());
        append(out, value);
        append(out, "\n".as_bytes());
        proof {
            assert(out@ =~= old(out)@ + field_line(label.spec_bytes(), value@));
        }
    }

    /// The pointer's position as a snapshot shows it.
    fn position(&self) -> (text: Vec<u8>)
        ensures
            text@ == position_text(self@.x, self@.y),
    {
        let mut text: Vec<u8> = Vec::new();
        append(&mut text, "(".as_bytes());
        push_decimal(&mut text, self.x as u64);
        append(&mut text, ", ".as_bytes());
        push_decimal(&mut text, self.y as u64);
        append(&mut text, ")".as_bytes());
        proof {
            assert(text@ =~= position_text(self@.x, self@.y));
        }
        text
    }

    /// Appends the first lines of a snapshot to `out`.
    fn print_summary(&self, out: &mut Vec<u8>)
        requires
            self.wf(),
        ensures
            final(out)@ == old(out)@ + self@.summary(),
    {
        let ghost start = out@;
        append(out, "\n=== Step Debug Info ===\n".as_bytes());
        let ghost banner = "\n=== Step Debug Info ===\n".spec_bytes();
        let position = self.position();
        Self::push_field(out, "Position: ", position.as_slice());
        let ghost first = banner + field_line("Position: ".spec_bytes(), position@);
        assert(out@ =~= start + first);
        let mut instruction: Vec<u8> = Vec::new();
        push_latin1(&mut instruction, self.world.get(self.x, self.y));
        assert(instruction@ =~= latin1_text(self@.instruction()));
        Self::push_field(out, "Current instruction: ", instruction.as_slice());
        let ghost second = first + field_line("Current instruction: ".spec_bytes(), instruction@);
        assert(out@ =~= start + second);
        let direction = match self.direction {
            Direction::Up => "Up",
            Direction::Down => "Down",
            Direction::Left => "Left",
            Direction::Right => "Right",
        };
        Self::push_field(out, "Direction: ", direction.as_bytes());
        let ghost third = second + field_line(
            "Direction: ".spec_bytes(),
            direction_text(self.direction),
        );
        assert(out@ =~= start + third);
        let stack = self.stack.render();
        Self::push_field(out, "Stack: ", stack.as_slice());
        let ghost fourth = third + field_line("Stack: ".spec_bytes(), stack@);
        assert(out@ =~= start + fourth);
        let mode = match self.mode {
            Mode::Interpret => "Interpret",
            Mode::AsciiPush => "AsciiPush",
        };
        Self::push_field(out, "Mode: ", mode.as_bytes());
        let ghost fifth = fourth + field_line("Mode: ".spec_bytes(), mode_text(self.mode));
        assert(out@ =~= start + fifth);
    }

    /// The snapshot of the interpreter as it stands.
    pub fn snapshot(&self) -> (text: Vec<u8>)
        requires
            self.wf(),
        ensures
            text@ == self@.snapshot(),
    {
        let mut text: Vec<u8> = Vec::new();
        self.print_summary(&mut text);
        self.print_grid(&mut text);
        append(&mut text, "==================\n\n".as_bytes());
        proof {
            assert(text@ =~= self@.snapshot());
        }
        text
    }

    /// Writes the snapshot of the interpreter to its output.
    pub fn write_debug_info(&mut self)
        requires
            old(self).wf(),
        ensures
            final(self).wf(),
            final(self)@ == (Machine {
                output: old(self)@.output + old(self)@.snapshot(),
                ..old(self)@
            }),
    {
        let text = self.snapshot();
        append(&mut self.output, text.as_slice());
    }

    /// The pause before an instruction: where introspection is on, the
    /// snapshot is written and one line of input is read and dropped.
    pub fn debug_step(&mut self)
        requires
            old(self).wf(),
        ensures
            final(self).wf(),
            final(self)@ == if old(self)@.debug {
                old(self)@.gate()
            } else {
                old(self)@
            },
    {
        if self.debug.is_enabled() {
            self.write_debug_info();
            let end = line_end(self.input.as_slice(), self.cursor);
            proof {
                let unread = old(self)@.input;
                assert(self.input@.skip(end as int) =~= unread.skip(line_len(unread) as int));
            }
            self.cursor = end;
        }
    }

    /// Moves the pointer on after an instruction that lets the run go on.
    fn settle(&mut self, verdict: Verdict) -> (same: Verdict)
        requires
            old(self).wf(),
        ensures
            final(self).wf(),
            same == verdict,
            final(self)@ == if verdict == Ok::<Option<()>, RunError>(None) {
                old(self)@.forward()
            } else {
                old(self)@
            },
    {
        match verdict {
            Ok(None) => {
                self.forward();
            },
            _ => {},
        }
        verdict
    }

    /// A cell in string mode: the quote ends the mode, any other byte is
    /// pushed; then the pointer moves on.
    fn string_cell(&mut self, instruction: u8)
        requires
            old(self).wf(),
            old(self)@.mode == Mode::AsciiPush,
            instruction == old(self)@.instruction(),
        ensures
            final(self).wf(),
            (final(self)@, Ok::<Option<()>, RunError>(None)) == old(self)@.turn(Direction::Right),
    {
        if instruction == QUOTE {
            self.mode = Mode::Interpret;
        } else {
            self.stack.push(instruction as i64);
        }
        self.forward();
    }

    /// Executes the cell under the pointer and moves on, with `drawn` for
    /// the direction that a random turn takes.
    pub fn turn_with(&mut self, drawn: Direction) -> (verdict: Verdict)
        requires
            old(self).wf(),
        ensures
            final(self).wf(),
            old(self)@.turn(drawn) == (final(self)@, verdict),
    {
        let instruction = self.world.get(self.x, self.y);
        match self.mode {
            Mode::Interpret => {
                let verdict = apply(self, instruction, drawn);
                self.settle(verdict)
            },
            Mode::AsciiPush => {
                self.string_cell(instruction);
                Ok(None)
            },
        }
    }

    /// Executes the cell under the pointer and moves on. Where the cell is
    /// a random turn, its direction is drawn here; any other cell does what
    /// `turn_with` does with it.
    pub fn turn(&mut self) -> (verdict: Verdict)
        requires
            old(self).wf(),
        ensures
            final(self).wf(),
            exists|drawn: Direction| old(self)@.turn(drawn) == (final(self)@, verdict),
            old(self)@.draws() || old(self)@.turn(old(self)@.direction) == (final(self)@, verdict),
    {
        let instruction = self.world.get(self.x, self.y);
        match self.mode {
            Mode::Interpret => {
                let verdict = execute_instruction(self, instruction);
                let ghost after = self@;
                let same = self.settle(verdict);
                proof {
                    let drawn = choose|drawn: Direction|
                        operations::effect(old(self)@, instruction, drawn) == (after, verdict);
                    assert(old(self)@.turn(drawn) == (self@, same));
                }
                same
            },
            Mode::AsciiPush => {
                self.string_cell(instruction);
                proof {
                    assert(old(self)@.turn(Direction::Right) == (
                        self@,
                        Ok::<Option<()>, RunError>(None),
                    ));
                }
                Ok(None)
            },
        }
    }

    /// One tick, with `drawn` for the direction that a random turn takes:
    /// the pause, then the turn.
    pub fn step_with(&mut self, drawn: Direction) -> (verdict: Verdict)
        requires
            old(self).wf(),
        ensures
            final(self).wf(),
            old(self)@.tick(drawn) == (final(self)@, verdict),
    {
        self.debug_step();
        self.turn_with(drawn)
    }

    /// One tick: the pause, then the turn. Where the cell is a random turn,
    /// its direction is drawn here; any other tick is what `step_with`
    /// makes it.
    pub fn step(&mut self) -> (verdict: Verdict)
        requires
            old(self).wf(),
        ensures
            final(self).wf(),
            exists|drawn: Direction| old(self)@.tick(drawn) == (final(self)@, verdict),
            old(self)@.draws() || old(self)@.tick(old(self)@.direction) == (final(self)@, verdict),
    {
        self.debug_step();
        let ghost paused = self@;
        let verdict = self.turn();
        proof {
            let drawn = choose|drawn: Direction| paused.turn(drawn) == (self@, verdict);
            assert(old(self)@.tick(drawn) == (self@, verdict));
        }
        verdict
    }

    /// Runs the program with `draws` for the directions that random turns
    /// take: one tick for each direction given, in their order, until a
    /// tick halts or fails. A run that is still going when the directions
    /// are used up ends with `RunError::TickLimit`.
    pub fn run_with(&mut self, draws: &[Direction]) -> (result: Result<(), RunError>)
        requires
            old(self).wf(),
        ensures
            final(self).wf(),
            old(self)@.run(draws@) == (final(self)@, run_verdict(result)),
    {
        let mut ticks: usize = 0;
        proof {
            assert(draws@.take(0) =~= Seq::<Direction>::empty());
        }
        while ticks < draws.len()
            invariant
                ticks <= draws@.len(),
                self.wf(),
                old(self)@.run(draws@.take(ticks as int)) == (
                    self@,
                    Ok::<Option<()>, RunError>(None),
                ),
            decreases draws@.len() - ticks,
        {
            let verdict = self.step_with(draws[ticks]);
            proof {
                let made = draws@.take(ticks + 1);
                assert(made.drop_last() =~= draws@.take(ticks as int));
                assert(made.last() == draws@[ticks as int]);
                assert(old(self)@.run(made) == (self@, verdict));
                lemma_run_verdict(old(self)@, made);
                if verdict != Ok::<Option<()>, RunError>(None) {
                    laws::lemma_run_stays_ended(old(self)@, made, draws@.skip(ticks + 1));
                    assert(made + draws@.skip(ticks + 1) =~= draws@);
                }
            }
            ticks = ticks + 1;
            match verdict {
                Ok(None) => {},
                Ok(Some(_)) => {
                    return Ok(());
                },
                Err(error) => {
                    return Err(error);
                },
            }
        }
        proof {
            assert(draws@.take(draws@.len() as int) =~= draws@);
        }
        Err(RunError::TickLimit)
    }

    /// Runs the program for `limit` ticks at most. A run that is still
    /// going after `limit` ticks ends with `RunError::TickLimit`, and can
    /// be taken up again where it stands.
    pub fn run_for(&mut self, limit: u64) -> (result: Result<(), RunError>)
        requires
            old(self).wf(),
        ensures
            final(self).wf(),
            ticks_to(old(self)@, final(self)@, run_verdict(result), limit as nat),
    {
        let mut ticks: u64 = 0;
        let ghost mut draws: Seq<Direction> = Seq::empty();
        while ticks < limit
            invariant
                ticks <= limit,
                self.wf(),
                draws.len() == ticks,
                old(self)@.run(draws) == (self@, Ok::<Option<()>, RunError>(None)),
            decreases limit - ticks,
        {
            let ghost before = self@;
            let ghost earlier = draws;
            let verdict = self.step();
            proof {
                let drawn = choose|drawn: Direction| before.tick(drawn) == (self@, verdict);
                draws = earlier.push(drawn);
                assert(draws.drop_last() =~= earlier);
                assert(old(self)@.run(draws) == (self@, verdict));
                lemma_run_verdict(old(self)@, draws);
            }
            ticks = ticks + 1;
            match verdict {
                Ok(None) => {},
                Ok(Some(_)) => {
                    return Ok(());
                },
                Err(error) => {
                    return Err(error);
                },
            }
        }
        Err(RunError::TickLimit)
    }

    /// Runs the program until it halts or fails. A run that is still going
    /// after `u64::MAX` ticks is cut off with `RunError::TickLimit`; it can
    /// be taken up again.
    pub fn run(&mut self) -> (result: Result<(), RunError>)
        requires
            old(self).wf(),
        ensures
            final(self).wf(),
            runs_to(old(self)@, final(self)@, result),
    {
        self.run_for(u64::MAX)
    }

    /// What the instruction under the pointer will read from the input.
    pub fn next_read(&self) -> (demand: Demand)
        requires
            self.wf(),
        ensures
            demand == self@.demand(),
    {
        let instruction = self.world.get(self.x, self.y);
        match self.mode {
            Mode::Interpret => {
                if instruction == operations::READ_INTEGER {
                    Demand::Line
                } else if instruction == operations::READ_BYTE {
                    Demand::Byte
                } else {
                    Demand::Nothing
                }
            },
            Mode::AsciiPush => Demand::Nothing,
        }
    }

    /// Adds `bytes` to the end of the input.
    pub fn feed(&mut self, bytes: &[u8])
        requires
            old(self).wf(),
        ensures
            final(self).wf(),
            final(self)@ == (Machine { input: old(self)@.input + bytes@, ..old(self)@ }),
    {
        append(&mut self.input, bytes);
        proof {
            assert(self.input@.skip(self.cursor as int) =~= old(self)@.input + bytes@);
        }
    }

    /// Hands out the output written so far, and starts anew with none.
    pub fn take_output(&mut self) -> (written: Vec<u8>)
        requires
            old(self).wf(),
        ensures
            final(self).wf(),
            written@ == old(self)@.output,
            final(self)@ == (Machine { output: Seq::<u8>::empty(), ..old(self)@ }),
    {
        let mut written: Vec<u8> = Vec::new();
        core::mem::swap(&mut written, &mut self.output);
        written
    }
}

/// A run of `limit` ticks at most leads from `before` to `after` and
/// reports `verdict`: some directions drawn, one for each tick made, give
/// that run, and a run that goes on has made all of its ticks.
pub open spec fn ticks_to(before: Machine, after: Machine, verdict: Verdict, limit: nat) -> bool {
    exists|draws: Seq<Direction>|
        {
            &&& draws.len() <= limit
            &&& #[trigger] before.run(draws) == (after, verdict)
            &&& verdict == Ok::<Option<()>, RunError>(None) ==> draws.len() == limit
        }
}

/// A whole run leads from `before` to `after` and reports `result`.
pub open spec fn runs_to(before: Machine, after: Machine, result: Result<(), RunError>) -> bool {
    ticks_to(before, after, run_verdict(result), u64::MAX as nat)
}

/// The verdict that a result of `run` stands for: a halt for success, "goes
/// on" for the tick limit, and any other error for itself.
pub open spec fn run_verdict(result: Result<(), RunError>) -> Verdict {
    match result {
        Ok(_) => Ok(Some(())),
        Err(RunError::TickLimit) => Ok(None),
        Err(error) => Err(error),
    }
}

/// A run reports a halt, a malformed integer, or that it goes on.
pub proof fn lemma_run_verdict(m: Machine, draws: Seq<Direction>)
    ensures
        m.run(draws).1 != Err::<Option<()>, RunError>(RunError::TickLimit),
    decreases draws.len(),
{
    if draws.len() > 0 {
        lemma_run_verdict(m, draws.drop_last());
    }
}

} // verus!
