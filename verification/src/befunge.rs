//! The interpreter under its short name: one value that is built from a
//! grid and an input, run once, and then asked for what it left behind.

pub use crate::interpreter::Direction;

use crate::interpreter::{Interpreter, Machine, Mode, RunError, Stack};
use crate::interpreter::runs_to;
use crate::interpreter::stack::value_text;
use crate::world::World;
use vstd::prelude::*;

verus! {

pub struct Befunge {
    machine: Interpreter,
}

impl View for Befunge {
    type V = Machine;

    closed spec fn view(&self) -> Machine {
        self.machine@
    }
}

impl Befunge {
    /// The interpreter inside is well-formed.
    pub closed spec fn wf(&self) -> bool {
        self.machine.wf()
    }

    /// An interpreter for `world` with the pointer in column `x` of row
    /// `y`, an empty stack, `input` to read and nothing written yet.
    pub fn new(
        world: World,
        x: usize,
        y: usize,
        direction: Direction,
        input: Vec<u8>,
        debug_mode: bool,
    ) -> (befunge: Befunge)
        requires
            world.wf(),
            world.width() > 0,
            world.height() > 0,
        ensures
            befunge.wf(),
            befunge@ == (Machine {
                grid: world@,
                stack: Seq::<i64>::empty(),
                direction,
                x: x as nat,
                y: y as nat,
                mode: Mode::Interpret,
                input: input@,
                output: Seq::<u8>::empty(),
                debug: debug_mode,
            }),
    {
        Befunge { machine: Interpreter::new(world, x, y, direction, input, debug_mode) }
    }

    /// Writes one value as a snapshot's stack line shows it.
    pub fn format_stack_value(value: i64) -> (shown: Vec<u8>)
        ensures
            shown@ == value_text(value),
    {
        Stack::format_value(value)
    }

    /// Writes the snapshot of the interpreter to its output, where
    /// introspection is on.
    pub fn print_debug_info(&mut self)
        requires
            old(self).wf(),
        ensures
            final(self).wf(),
            old(self)@.debug ==> final(self)@ == (Machine {
                output: old(self)@.output + old(self)@.snapshot(),
                ..old(self)@
            }),
            !old(self)@.debug ==> final(self)@ == old(self)@,
    {
        if self.machine.debug.is_enabled() {
            self.machine.write_debug_info();
        }
    }

    /// Runs the program until it halts or fails. A run that is still going
    /// after `u64::MAX` ticks is cut off with `RunError::TickLimit`; it can
    /// be taken up again.
    pub fn run(&mut self) -> (result: Result<(), RunError>)
        requires
            old(self).wf(),
        ensures
            final(self).wf(),
            runs_to(old(self)@, final(self)@, result),
    {
        self.machine.run()
    }

    /// Moves the pointer one cell in the direction of travel, around the
    /// edge of the grid where it stands on one.
    pub fn forward(&mut self)
        requires
            old(self).wf(),
        ensures
            final(self).wf(),
            final(self)@ == old(self)@.forward(),
    {
        self.machine.forward();
    }

    /// The values on the stack, bottom first.
    pub fn stack(&self) -> (values: &Vec<i64>)
        ensures
            values@ == self@.stack,
    {
        self.machine.get_stack().values()
    }

    /// The output written so far.
    pub fn output(&self) -> (output: &Vec<u8>)
        ensures
            output@ == self@.output,
    {
        self.machine.get_output()
    }

    /// The grid.
    pub fn world(&self) -> (world: &World)
        ensures
            world@ == self@.grid,
            self.wf() ==> world.wf() && world.width() > 0 && world.height() > 0,
    {
        self.machine.get_world()
    }
}

} // verus!
