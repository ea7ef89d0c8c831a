//! The instruction table.

use crate::interpreter::machine::{Machine, Verdict};
use crate::interpreter::stack::{
    bits_of, top_or_zero, with_top_doubled, with_top_swapped, without_top,
};
use crate::interpreter::{Direction, Interpreter, Mode, RunError};
use crate::text::{
    decimal_text, line_end, line_len, parse_between, parse_integer,
    push_integer, trim, trim_bounds,
};
use crate::world::{cell, put_cell};
use rand::Rng;
use vstd::prelude::*;

verus! {

/// `+`: pops two values and pushes their sum.
pub const ADD: u8 = 43;

/// `-`: pops `a`, then `b`, and pushes `b - a`.
pub const SUBTRACT: u8 = 45;

/// `*`: pops two values and pushes their product.
pub const MULTIPLY: u8 = 42;

/// `/`: pops `a`, then `b`, and pushes `b / a`; halts where `a` is zero.
pub const DIVIDE: u8 = 47;

/// `%`: pops `a`, then `b`, and pushes the remainder of `b / a`; halts
/// where `a` is zero.
pub const MODULO: u8 = 37;

/// `!`: pops a value and pushes 1 where it is zero, else 0.
pub const NOT: u8 = 33;

/// `` ` ``: pops `a`, then `b`, and pushes 1 where `b > a`, else 0.
pub const GREATER: u8 = 96;

/// `>`: heads right.
pub const GO_RIGHT: u8 = 62;

/// `<`: heads left.
pub const GO_LEFT: u8 = 60;

/// `^`: heads up.
pub const GO_UP: u8 = 94;

/// `v`: heads down.
pub const GO_DOWN: u8 = 118;

/// `?`: heads in a direction drawn at random.
pub const RANDOM: u8 = 63;

/// `_`: pops a value and heads right where it is zero, else left.
pub const HORIZONTAL_IF: u8 = 95;

/// `|`: pops a value and heads down where it is zero, else up.
pub const VERTICAL_IF: u8 = 124;

/// `"`: switches string mode on, and off again.
pub const QUOTE: u8 = 34;

/// `:`: pushes the value on top once more.
pub const DUPLICATE: u8 = 58;

/// `\`: exchanges the two values on top.
pub const SWAP: u8 = 92;

/// `$`: pops a value and drops it.
pub const DISCARD: u8 = 36;

/// `.`: pops a value and writes it in decimal, with a space behind it.
pub const WRITE_INTEGER: u8 = 46;

/// `,`: pops a value and writes its low byte.
pub const WRITE_BYTE: u8 = 44;

/// `#`: passes over the next cell.
pub const BRIDGE: u8 = 35;

/// `p`: pops `y`, `x` and a value, and writes the value's low byte into
/// the grid at column `x`, row `y`.
pub const PUT: u8 = 112;

/// `g`: pops `y` and `x`, and pushes the byte of the grid at column `x`,
/// row `y`.
pub const GET: u8 = 103;

/// `&`: reads a line and pushes the integer on it.
pub const READ_INTEGER: u8 = 38;

/// `~`: reads a byte and pushes it.
pub const READ_BYTE: u8 = 126;

/// `@`: halts.
pub const HALT: u8 = 64;

/// The blank that `.` writes behind a number.
pub const SPACE: u8 = 32;

/// The signed 64-bit integer that `v` is congruent to modulo 2^64: what
/// arithmetic that wraps around gives for `v`.
pub open spec fn wrap(v: int) -> i64 {
    let low = v % 0x1_0000_0000_0000_0000;
    if low > i64::MAX {
        (low - 0x1_0000_0000_0000_0000) as i64
    } else {
        low as i64
    }
}

/// The distance of `v` from zero.
pub open spec fn magnitude_of(v: int) -> int {
    if v < 0 {
        -v
    } else {
        v
    }
}

/// `b` divided by `a`, rounded toward zero.
pub open spec fn quotient(b: int, a: int) -> int
    recommends
        a != 0,
{
    if (b < 0) == (a < 0) {
        magnitude_of(b) / magnitude_of(a)
    } else {
        -(magnitude_of(b) / magnitude_of(a))
    }
}

/// What is left of `b` when it is divided by `a` and the quotient is
/// rounded toward zero; it has the sign of `b`.
pub open spec fn remainder(b: int, a: int) -> int
    recommends
        a != 0,
{
    if b < 0 {
        -(magnitude_of(b) % magnitude_of(a))
    } else {
        magnitude_of(b) % magnitude_of(a)
    }
}

/// The low eight bits of `v`.
pub open spec fn low_byte(v: i64) -> u8 {
    (v % 256) as u8
}

/// The direction that two coin tosses pick: the first decides between the
/// vertical and the horizontal, the second between the two that are left.
pub open spec fn picked(vertical: bool, first: bool) -> Direction {
    if vertical {
        if first {
            Direction::Up
        } else {
            Direction::Down
        }
    } else if first {
        Direction::Left
    } else {
        Direction::Right
    }
}

/// What the instruction `op` makes of the machine `m`, before the pointer
/// moves on, and whether the run goes on. `drawn` is the direction that a
/// random turn takes.
///
/// A pop from the empty stack gives zero. Of two operands the one on top
/// is `a`, the one below it `b`. Sums, differences, products and quotients
/// wrap around. A coordinate is the 64 bits of the value popped, read as
/// an unsigned number and wrapped to the grid.
pub open spec fn effect(m: Machine, op: u8, drawn: Direction) -> (Machine, Verdict) {
    let a = top_or_zero(m.stack);
    let popped = without_top(m.stack);
    let b = top_or_zero(popped);
    let popped2 = without_top(popped);
    let c = top_or_zero(popped2);
    let popped3 = without_top(popped2);
    if 48 <= op <= 57 {
        (Machine { stack: m.stack.push((op - 48) as i64), ..m }, Ok(None))
    } else if op == ADD {
        (Machine { stack: popped2.push(wrap(a + b)), ..m }, Ok(None))
    } else if op == SUBTRACT {
        (Machine { stack: popped2.push(wrap(b - a)), ..m }, Ok(None))
    } else if op == MULTIPLY {
        (Machine { stack: popped2.push(wrap(a * b)), ..m }, Ok(None))
    } else if op == DIVIDE {
        if a == 0 {
            (Machine { stack: popped, ..m }, Ok(Some(())))
        } else {
            (Machine { stack: popped2.push(wrap(quotient(b as int, a as int))), ..m }, Ok(None))
        }
    } else if op == MODULO {
        if a == 0 {
            (Machine { stack: popped, ..m }, Ok(Some(())))
        } else {
            (Machine { stack: popped2.push(wrap(remainder(b as int, a as int))), ..m }, Ok(None))
        }
    } else if op == NOT {
        (
            Machine {
                stack: popped.push(
                    if a == 0 {
                        1i64
                    } else {
                        0i64
                    },
                ),
                ..m
            },
            Ok(None),
        )
    } else if op == GREATER {
        (
            Machine {
                stack: popped2.push(
                    if b > a {
                        1i64
                    } else {
                        0i64
                    },
                ),
                ..m
            },
            Ok(None),
        )
    } else if op == GO_RIGHT {
        (Machine { direction: Direction::Right, ..m }, Ok(None))
    } else if op == GO_LEFT {
        (Machine { direction: Direction::Left, ..m }, Ok(None))
    } else if op == GO_UP {
        (Machine { direction: Direction::Up, ..m }, Ok(None))
    } else if op == GO_DOWN {
        (Machine { direction: Direction::Down, ..m }, Ok(None))
    } else if op == RANDOM {
        (Machine { direction: drawn, ..m }, Ok(None))
    } else if op == HORIZONTAL_IF {
        (
            Machine {
                stack: popped,
                direction: if a == 0 {
                    Direction::Right
                } else {
                    Direction::Left
                },
                ..m
            },
            Ok(None),
        )
    } else if op == VERTICAL_IF {
        (
            Machine {
                stack: popped,
                direction: if a == 0 {
                    Direction::Down
                } else {
                    Direction::Up
                },
                ..m
            },
            Ok(None),
        )
    } else if op == QUOTE {
        (Machine { mode: Mode::AsciiPush, ..m }, Ok(None))
    } else if op == DUPLICATE {
        (Machine { stack: with_top_doubled(m.stack), ..m }, Ok(None))
    } else if op == SWAP {
        (Machine { stack: with_top_swapped(m.stack), ..m }, Ok(None))
    } else if op == DISCARD {
        (Machine { stack: popped, ..m }, Ok(None))
    } else if op == WRITE_INTEGER {
        (
            Machine { stack: popped, output: m.output + decimal_text(a as int).push(SPACE), ..m },
            Ok(None),
        )
    } else if op == WRITE_BYTE {
        (Machine { stack: popped, output: m.output.push(low_byte(a)), ..m }, Ok(None))
    } else if op == BRIDGE {
        (m.forward(), Ok(None))
    } else if op == PUT {
        (
            Machine {
                stack: popped3,
                grid: put_cell(m.grid, bits_of(b) as int, bits_of(a) as int, low_byte(c)),
                ..m
            },
            Ok(None),
        )
    } else if op == GET {
        (
            Machine {
                stack: popped2.push(cell(m.grid, bits_of(b) as int, bits_of(a) as int) as i64),
                ..m
            },
            Ok(None),
        )
    } else if op == READ_INTEGER {
        let line = m.input.take(line_len(m.input) as int);
        let rest = m.input.skip(line_len(m.input) as int);
        match parse_integer(trim(line)) {
            Some(n) => (Machine { stack: m.stack.push(n), input: rest, ..m }, Ok(None)),
            None => (Machine { input: rest, ..m }, Err(RunError::MalformedInteger)),
        }
    } else if op == READ_BYTE {
        if m.input.len() > 0 {
            (Machine { stack: m.stack.push(m.input[0] as i64), input: m.input.skip(1), ..m }, Ok(None))
        } else {
            (m, Ok(None))
        }
    } else if op == HALT {
        (m, Ok(Some(())))
    } else {
        (m, Ok(None))
    }
}

/// One coin toss from the thread's random generator.
///
/// Calls `rand::thread_rng` and `rand::Rng::gen` for a `bool`. Nothing is
/// claimed of the toss that comes back.
#[verifier::external_body]
fn random_bool() -> (toss: bool) {
    rand::thread_rng().gen()
}

/// The direction that two coin tosses pick.
pub fn pick_direction(vertical: bool, first: bool) -> (direction: Direction)
    ensures
        direction == picked(vertical, first),
{
    if vertical {
        if first {
            Direction::Up
        } else {
            Direction::Down
        }
    } else if first {
        Direction::Left
    } else {
        Direction::Right
    }
}

/// A direction drawn at random: two coin tosses, and the direction they
/// pick.
pub fn random_direction() -> (direction: Direction)
    ensures
        exists|vertical: bool, first: bool| direction == picked(vertical, first),
{
    let vertical = random_bool();
    let first = random_bool();
    pick_direction(vertical, first)
}

/// The sum of two values, wrapped around.
pub fn sum(a: i64, b: i64) -> (r: i64)
    ensures
        r == wrap(a + b),
{
    a.wrapping_add(b)
}

/// The difference of two values, wrapped around.
pub fn difference(b: i64, a: i64) -> (r: i64)
    ensures
        r == wrap(b - a),
{
    b.wrapping_sub(a)
}

/// The product of two values, wrapped around.
pub fn product(a: i64, b: i64) -> (r: i64)
    ensures
        r == wrap(a * b),
{
    a.wrapping_mul(b)
}

/// `b` divided by `a`, rounded toward zero and wrapped around.
pub fn divide(b: i64, a: i64) -> (r: i64)
    requires
        a != 0,
    ensures
        r == wrap(quotient(b as int, a as int)),
{
    match b.checked_div(a) {
        Some(q) => q,
        None => i64::MIN,
    }
}

/// The remainder of `b` divided by `a`, with the sign of `b`.
pub fn modulo(b: i64, a: i64) -> (r: i64)
    requires
        a != 0,
    ensures
        r == wrap(remainder(b as int, a as int)),
        r == remainder(b as int, a as int),
{
    match b.checked_rem(a) {
        Some(r) => r,
        None => 0,
    }
}

/// The low eight bits of a value.
pub fn low_bits(v: i64) -> (byte: u8)
    ensures
        byte == low_byte(v),
{
    let byte: u8 = #[verifier::truncate] (v as u8);
    assert(byte as int == (v as int) % 256) by (bit_vector)
        requires
            byte == v as u8,
    ;
    byte
}

/// The cell, on a ring of `extent` cells, that a value names.
pub fn coordinate(v: i64, extent: usize) -> (c: usize)
    requires
        extent > 0,
    ensures
        c == bits_of(v) % (extent as nat),
        c < extent,
{
    let bits: u64 = #[verifier::truncate] (v as u64);
    proof {
        assert(v >= 0 ==> bits == v) by (bit_vector)
            requires
                bits == v as u64,
        ;
        assert(v < 0 ==> bits == v + 0x1_0000_0000_0000_0000) by (bit_vector)
            requires
                bits == v as u64,
        ;
    }
    (bits % (extent as u64)) as usize
}

/// Executes `instruction` on the interpreter, with `drawn` for the
/// direction that a random turn takes. The pointer stays where it is, but
/// for the bridge.
pub fn apply(interpreter: &mut Interpreter, instruction: u8, drawn: Direction) -> (verdict: Verdict)
    requires
        old(interpreter).wf(),
    ensures
        final(interpreter).wf(),
        effect(old(interpreter)@, instruction, drawn) == (final(interpreter)@, verdict),
{
    if 48 <= instruction && instruction <= 57 {
        interpreter.stack.push((instruction - 48) as i64);
        Ok(None)
    } else if instruction == ADD {
        let a = interpreter.stack.pop();
        let b = interpreter.stack.pop();
        interpreter.stack.push(sum(a, b));
        Ok(None)
    } else if instruction == SUBTRACT {
        let a = interpreter.stack.pop();
        let b = interpreter.stack.pop();
        interpreter.stack.push(difference(b, a));
        Ok(None)
    } else if instruction == MULTIPLY {
        let a = interpreter.stack.pop();
        let b = interpreter.stack.pop();
        interpreter.stack.push(product(a, b));
        Ok(None)
    } else if instruction == DIVIDE {
        let a = interpreter.stack.pop();
        if a == 0 {
            Ok(Some(()))
        } else {
            let b = interpreter.stack.pop();
            interpreter.stack.push(divide(b, a));
            Ok(None)
        }
    } else if instruction == MODULO {
        let a = interpreter.stack.pop();
        if a == 0 {
            Ok(Some(()))
        } else {
            let b = interpreter.stack.pop();
            interpreter.stack.push(modulo(b, a));
            Ok(None)
        }
    } else if instruction == NOT {
        let value = interpreter.stack.pop();
        interpreter.stack.push(
            if value == 0 {
                1
            } else {
                0
            },
        );
        Ok(None)
    } else if instruction == GREATER {
        let a = interpreter.stack.pop();
        let b = interpreter.stack.pop();
        interpreter.stack.push(
            if b > a {
                1
            } else {
                0
            },
        );
        Ok(None)
    } else if instruction == GO_RIGHT {
        interpreter.direction = Direction::Right;
        Ok(None)
    } else if instruction == GO_LEFT {
        interpreter.direction = Direction::Left;
        Ok(None)
    } else if instruction == GO_UP {
        interpreter.direction = Direction::Up;
        Ok(None)
    } else if instruction == GO_DOWN {
        interpreter.direction = Direction::Down;
        Ok(None)
    } else if instruction == RANDOM {
        interpreter.direction = drawn;
        Ok(None)
    } else if instruction == HORIZONTAL_IF {
        let value = interpreter.stack.pop();
        interpreter.direction = if value == 0 {
            Direction::Right
        } else {
            Direction::Left
        };
        Ok(None)
    } else if instruction == VERTICAL_IF {
        let value = interpreter.stack.pop();
        interpreter.direction = if value == 0 {
            Direction::Down
        } else {
            Direction::Up
        };
        Ok(None)
    } else if instruction == QUOTE {
        interpreter.mode = Mode::AsciiPush;
        Ok(None)
    } else if instruction == DUPLICATE {
        interpreter.stack.duplicate_top();
        Ok(None)
    } else if instruction == SWAP {
        interpreter.stack.swap_top();
        Ok(None)
    } else if instruction == DISCARD {
        interpreter.stack.pop();
        Ok(None)
    } else if instruction == WRITE_INTEGER {
        let value = interpreter.stack.pop();
        push_integer(&mut interpreter.output, value);
        interpreter.output.push(SPACE);
        proof {
            assert(interpreter.output@ =~= old(interpreter).output@ + decimal_text(
                value as int,
            ).push(SPACE));
        }
        Ok(None)
    } else if instruction == WRITE_BYTE {
        let value = interpreter.stack.pop();
        interpreter.output.push(low_bits(value));
        Ok(None)
    } else if instruction == BRIDGE {
        interpreter.forward();
        Ok(None)
    } else if instruction == PUT {
        let y = interpreter.stack.pop();
        let x = interpreter.stack.pop();
        let v = interpreter.stack.pop();
        let column = coordinate(x, interpreter.world.width());
        let row = coordinate(y, interpreter.world.height());
        proof {
            interpreter.world.lemma_wf_addressable();
            vstd::arithmetic::div_mod::lemma_small_mod(
                column as nat,
                interpreter.world.width() as nat,
            );
            vstd::arithmetic::div_mod::lemma_small_mod(row as nat, interpreter.world.height() as nat);
        }
        interpreter.world.set(column, row, low_bits(v));
        Ok(None)
    } else if instruction == GET {
        let y = interpreter.stack.pop();
        let x = interpreter.stack.pop();
        let column = coordinate(x, interpreter.world.width());
        let row = coordinate(y, interpreter.world.height());
        proof {
            interpreter.world.lemma_wf_addressable();
            vstd::arithmetic::div_mod::lemma_small_mod(
                column as nat,
                interpreter.world.width() as nat,
            );
            vstd::arithmetic::div_mod::lemma_small_mod(row as nat, interpreter.world.height() as nat);
        }
        let v = interpreter.world.get(column, row);
        interpreter.stack.push(v as i64);
        Ok(None)
    } else if instruction == READ_INTEGER {
        let end = line_end(interpreter.input.as_slice(), interpreter.cursor);
        let bounds = trim_bounds(interpreter.input.as_slice(), interpreter.cursor, end);
        let parsed = parse_between(interpreter.input.as_slice(), bounds.0, bounds.1);
        proof {
            let unread = old(interpreter)@.input;
            assert(interpreter.input@.subrange(interpreter.cursor as int, end as int)
                =~= unread.take(line_len(unread) as int));
            assert(interpreter.input@.skip(end as int) =~= unread.skip(line_len(unread) as int));
        }
        interpreter.cursor = end;
        match parsed {
            Some(n) => {
                interpreter.stack.push(n);
                Ok(None)
            },
            None => Err(RunError::MalformedInteger),
        }
    } else if instruction == READ_BYTE {
        if interpreter.cursor < interpreter.input.len() {
            let byte = interpreter.input[interpreter.cursor];
            proof {
                assert(interpreter.input@.skip(interpreter.cursor + 1) =~= old(
                    interpreter,
                )@.input.skip(1));
            }
            interpreter.cursor = interpreter.cursor + 1;
            interpreter.stack.push(byte as i64);
        }
        Ok(None)
    } else if instruction == HALT {
        Ok(Some(()))
    } else {
        Ok(None)
    }
}

/// Executes `instruction` on the interpreter. A random turn draws its
/// direction here; every other instruction does what `apply` does with any
/// direction.
pub fn execute_instruction(interpreter: &mut Interpreter, instruction: u8) -> (verdict: Verdict)
    requires
        old(interpreter).wf(),
    ensures
        final(interpreter).wf(),
        exists|drawn: Direction|
            effect(old(interpreter)@, instruction, drawn) == (final(interpreter)@, verdict),
        instruction != RANDOM ==> effect(
            old(interpreter)@,
            instruction,
            old(interpreter)@.direction,
        ) == (final(interpreter)@, verdict),
{
    let drawn = if instruction == RANDOM {
        random_direction()
    } else {
        interpreter.direction
    };
    apply(interpreter, instruction, drawn)
}

} // verus!
