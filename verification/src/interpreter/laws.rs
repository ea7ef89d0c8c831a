//! What holds of every run.

use crate::interpreter::machine::Machine;
use crate::interpreter::operations::{effect, DIVIDE, HALT, MODULO};
use crate::interpreter::stack::top_or_zero;
use crate::interpreter::{runs_to, run_verdict, Direction, Mode, RunError};
use crate::text::{all_digits, is_digit};
use crate::world::{grid_of, pad_row, split_rows, widest, NEWLINE};
use vstd::prelude::*;

verus! {

/// The values that a row of digits pushes: each digit's own.
pub open spec fn digit_values(digits: Seq<u8>) -> Seq<i64> {
    Seq::new(digits.len(), |i: int| (digits[i] - 48) as i64)
}

/// A machine at the start of a program: the pointer in the upper left
/// corner heading right, nothing on the stack, instructions executed.
pub open spec fn at_start(m: Machine) -> bool {
    &&& m.x == 0
    &&& m.y == 0
    &&& m.direction == Direction::Right
    &&& m.mode == Mode::Interpret
    &&& m.stack == Seq::<i64>::empty()
}

/// A text without a newline is one row.
pub proof fn lemma_one_row(text: Seq<u8>)
    requires
        forall|i: int| 0 <= i < text.len() ==> text[i] != NEWLINE,
    ensures
        split_rows(text) == seq![text],
        grid_of(text) == seq![text],
    decreases text.len(),
{
    if text.len() > 0 {
        lemma_one_row(text.drop_last());
        assert(text.drop_last().push(text.last()) =~= text);
        assert(seq![text.drop_last()].update(0, text) =~= seq![text]);
    } else {
        assert(text =~= Seq::<u8>::empty());
    }
    assert(split_rows(text) == seq![text]);
    assert(seq![text].drop_last() =~= Seq::<Seq<u8>>::empty());
    assert(widest(seq![text]) == text.len()) by {
        assert(widest(Seq::<Seq<u8>>::empty()) == 0);
    }
    assert(pad_row(text, text.len()) =~= text);
    assert(grid_of(text).len() == 1);
    assert(grid_of(text)[0] == pad_row(text, text.len()));
    assert(grid_of(text) =~= seq![text]);
}

/// Once a run has halted or failed, further ticks change nothing.
pub proof fn lemma_run_stays_ended(m: Machine, draws: Seq<Direction>, more: Seq<Direction>)
    requires
        m.run(draws).1 != Ok::<Option<()>, RunError>(None),
    ensures
        m.run(draws + more) == m.run(draws),
    decreases more.len(),
{
    if more.len() == 0 {
        assert(draws + more =~= draws);
    } else {
        lemma_run_stays_ended(m, draws, more.drop_last());
        assert((draws + more).drop_last() =~= draws + more.drop_last());
    }
}

/// The direction drawn matters to a tick only where the instruction under
/// the pointer is the random turn.
pub proof fn lemma_tick_ignores_draw(m: Machine, first: Direction, second: Direction)
    requires
        !m.draws(),
    ensures
        m.turn(first) == m.turn(second),
        m.tick(first) == m.tick(second),
{
    if m.debug {
        assert(m.gate().instruction() == m.instruction());
    }
}

/// A division or a remainder whose divisor is zero halts the run, and
/// leaves the output as it stood when the instruction was reached: in a
/// tick with introspection, behind the snapshot of that tick.
pub proof fn lemma_zero_divisor_halts(m: Machine, drawn: Direction)
    requires
        m.mode == Mode::Interpret,
        m.instruction() == DIVIDE || m.instruction() == MODULO,
        top_or_zero(m.stack) == 0,
    ensures
        effect(m, m.instruction(), drawn).1 == Ok::<Option<()>, RunError>(Some(())),
        effect(m, m.instruction(), drawn).0.output == m.output,
        m.tick(drawn).1 == Ok::<Option<()>, RunError>(Some(())),
        m.tick(drawn).0.output == if m.debug {
            m.output + m.snapshot()
        } else {
            m.output
        },
{
    if m.debug {
        assert(m.gate().instruction() == m.instruction());
    }
}

/// A run that reaches a division or a remainder by zero ends there with a
/// halt, whatever number of ticks it is given beyond that.
pub proof fn lemma_zero_divisor_ends_run(
    m: Machine,
    draws: Seq<Direction>,
    drawn: Direction,
    more: Seq<Direction>,
)
    requires
        m.run(draws).1 == Ok::<Option<()>, RunError>(None),
        m.run(draws).0.mode == Mode::Interpret,
        m.run(draws).0.instruction() == DIVIDE || m.run(draws).0.instruction() == MODULO,
        top_or_zero(m.run(draws).0.stack) == 0,
    ensures
        m.run(draws.push(drawn) + more).1 == Ok::<Option<()>, RunError>(Some(())),
        m.run(draws.push(drawn) + more).0.output == if m.debug {
            m.run(draws).0.output + m.run(draws).0.snapshot()
        } else {
            m.run(draws).0.output
        },
{
    let reached = m.run(draws).0;
    lemma_run_keeps_debug(m, draws);
    lemma_zero_divisor_halts(reached, drawn);
    assert(draws.push(drawn).drop_last() =~= draws);
    assert(m.run(draws.push(drawn)) == reached.tick(drawn));
    lemma_run_stays_ended(m, draws.push(drawn), more);
}

/// No tick switches introspection on or off.
pub proof fn lemma_run_keeps_debug(m: Machine, draws: Seq<Direction>)
    ensures
        m.run(draws).0.debug == m.debug,
    decreases draws.len(),
{
    if draws.len() > 0 {
        lemma_run_keeps_debug(m, draws.drop_last());
    }
}

/// A program that is a row of digits and then a halt, run from the start:
/// as long as there are digits left, each tick pushes the next one; the
/// tick after the last digit halts, with the digits on the stack in the
/// order of the text.
pub proof fn lemma_digits_are_pushed_in_order(
    digits: Seq<u8>,
    start: Machine,
    draws: Seq<Direction>,
)
    requires
        all_digits(digits),
        start.grid == grid_of(digits.push(HALT)),
        at_start(start),
    ensures
        draws.len() <= digits.len() ==> {
            &&& start.run(draws).1 == Ok::<Option<()>, RunError>(None)
            &&& start.run(draws).0.stack == digit_values(digits.take(draws.len() as int))
        },
        draws.len() > digits.len() ==> {
            &&& start.run(draws).1 == Ok::<Option<()>, RunError>(Some(()))
            &&& start.run(draws).0.stack == digit_values(digits)
        },
        start.run(draws).0.grid == start.grid,
        start.run(draws).0.mode == Mode::Interpret,
        start.run(draws).0.direction == Direction::Right,
        start.run(draws).0.y == 0,
        start.run(draws).0.x == if draws.len() <= digits.len() {
            draws.len()
        } else {
            digits.len()
        },
    decreases draws.len(),
{
    let text = digits.push(HALT);
    assert forall|i: int| 0 <= i < text.len() implies text[i] != NEWLINE by {
        if i < digits.len() {
            assert(is_digit(digits[i]));
        }
    }
    lemma_one_row(text);
    if draws.len() == 0 {
        assert(digits.take(0) =~= Seq::<u8>::empty());
        assert(digit_values(digits.take(0)) =~= Seq::<i64>::empty());
    } else {
        let earlier = draws.drop_last();
        lemma_digits_are_pushed_in_order(digits, start, earlier);
        let (before, verdict) = start.run(earlier);
        if earlier.len() <= digits.len() {
            let k = earlier.len() as int;
            let paused = if before.debug {
                before.gate()
            } else {
                before
            };
            vstd::arithmetic::div_mod::lemma_small_mod(k as nat, text.len());
            assert(paused.instruction() == text[k]);
            if k < digits.len() {
                assert(is_digit(digits[k]));
                assert(digits.take(k + 1).drop_last() =~= digits.take(k));
                assert(digit_values(digits.take(k)).push((digits[k] - 48) as i64)
                    =~= digit_values(digits.take(k + 1)));
                vstd::arithmetic::div_mod::lemma_small_mod(0, 1);
            } else {
                assert(digits.take(k) =~= digits);
            }
        }
    }
}

/// A whole run of a row of digits and then a halt, from the start, ends
/// in success with the digits on the stack in the order of the text.
pub proof fn lemma_digit_program_runs(
    digits: Seq<u8>,
    start: Machine,
    end: Machine,
    result: Result<(), RunError>,
)
    requires
        all_digits(digits),
        digits.len() < u64::MAX,
        start.grid == grid_of(digits.push(HALT)),
        at_start(start),
        runs_to(start, end, result),
    ensures
        result is Ok,
        end.stack == digit_values(digits),
{
    let draws = choose|draws: Seq<Direction>|
        {
            &&& draws.len() <= u64::MAX
            &&& #[trigger] start.run(draws) == (end, run_verdict(result))
            &&& run_verdict(result) == Ok::<Option<()>, RunError>(None) ==> draws.len()
                == u64::MAX
        };
    lemma_digits_are_pushed_in_order(digits, start, draws);
}

} // verus!
