//! The operand stack.

use crate::text::{append, hex_digits, push_hex};
use vstd::prelude::*;
use vstd::string::StringSliceAdditionalSpecFns;

verus! {

/// The value on top of `values`; zero where there is none.
pub open spec fn top_or_zero(values: Seq<i64>) -> i64 {
    if values.len() == 0 {
        0
    } else {
        values.last()
    }
}

/// `values` without the value on top; still empty where there is none.
pub open spec fn without_top(values: Seq<i64>) -> Seq<i64> {
    if values.len() == 0 {
        values
    } else {
        values.drop_last()
    }
}

/// `values` with the two on top exchanged; unchanged where there are fewer
/// than two.
pub open spec fn with_top_swapped(values: Seq<i64>) -> Seq<i64> {
    if values.len() < 2 {
        values
    } else {
        let n = values.len() as int;
        values.update(n - 1, values[n - 2]).update(n - 2, values[n - 1])
    }
}

/// `values` with the value on top pushed once more; unchanged where there
/// is none.
pub open spec fn with_top_doubled(values: Seq<i64>) -> Seq<i64> {
    if values.len() == 0 {
        values
    } else {
        values.push(values.last())
    }
}

/// The 64 bits of `value` read as an unsigned number.
pub open spec fn bits_of(value: i64) -> nat {
    if value < 0 {
        (value + 0x1_0000_0000_0000_0000) as nat
    } else {
        value as nat
    }
}

/// A value as the stack shows it: `0x`, then the hexadecimal digits of its
/// 64 bits, two at least; a value that is a printable ASCII character is
/// followed by that character in quotes and brackets.
pub open spec fn value_text(value: i64) -> Seq<u8> {
    let digits = hex_digits(bits_of(value));
    let hex = "0x".spec_bytes() + (if digits.len() < 2 {
        seq![48u8] + digits
    } else {
        digits
    });
    if 0x20 <= value <= 0x7E {
        hex + " ('".spec_bytes() + seq![value as u8] + "')".spec_bytes()
    } else {
        hex
    }
}

/// The values as the stack shows them, bottom first, with a comma and a
/// space between two of them.
pub open spec fn values_text(values: Seq<i64>) -> Seq<u8>
    decreases values.len(),
{
    if values.len() == 0 {
        Seq::<u8>::empty()
    } else if values.len() == 1 {
        value_text(values[0])
    } else {
        values_text(values.drop_last()) + ", ".spec_bytes() + value_text(values.last())
    }
}

/// The stack as it is shown: its values between square brackets.
pub open spec fn stack_text(values: Seq<i64>) -> Seq<u8> {
    "[".spec_bytes() + values_text(values) + "]".spec_bytes()
}

pub struct Stack {
    values: Vec<i64>,
}

impl View for Stack {
    type V = Seq<i64>;

    closed spec fn view(&self) -> Seq<i64> {
        self.values@
    }
}

impl Default for Stack {
    fn default() -> (stack: Self)
        ensures
            stack@ == Seq::<i64>::empty(),
    {
        Self::new()
    }
}

impl Stack {
    /// The empty stack.
    pub fn new() -> (stack: Self)
        ensures
            stack@ == Seq::<i64>::empty(),
    {
        Self { values: Vec::new() }
    }

    /// Puts `value` on top.
    pub fn push(&mut self, value: i64)
        ensures
            final(self)@ == old(self)@.push(value),
    {
        self.values.push(value);
    }

    /// Takes the value on top off and returns it. An empty stack stays
    /// empty and gives zero.
    pub fn pop(&mut self) -> (value: i64)
        ensures
            value == top_or_zero(old(self)@),
            final(self)@ == without_top(old(self)@),
            old(self)@.len() == 0 ==> value == 0 && final(self)@ == old(self)@,
    {
        match self.values.pop() {
            Some(value) => {
                assert(self@ =~= old(self)@.drop_last());
                value
            },
            None => 0,
        }
    }

    /// The value on top, if there is one.
    pub fn peek(&self) -> (top: Option<&i64>)
        ensures
            self@.len() == 0 ==> top is None,
            self@.len() > 0 ==> top == Some(&self@.last()),
    {
        let n = self.values.len();
        if n == 0 {
            None
        } else {
            Some(&self.values[n - 1])
        }
    }

    /// The number of values held.
    pub fn len(&self) -> (n: usize)
        ensures
            n == self@.len(),
    {
        self.values.len()
    }

    /// Whether no value is held.
    pub fn is_empty(&self) -> (empty: bool)
        ensures
            empty == (self@.len() == 0),
    {
        self.values.len() == 0
    }

    /// The values held, bottom first.
    pub fn values(&self) -> (values: &Vec<i64>)
        ensures
            values@ == self@,
    {
        &self.values
    }

    /// Exchanges the two values on top. A stack of fewer than two values
    /// stays as it is.
    pub fn swap_top(&mut self)
        ensures
            final(self)@ == with_top_swapped(old(self)@),
            old(self)@.len() < 2 ==> final(self)@ == old(self)@,
    {
        let n = self.values.len();
        if n >= 2 {
            let upper = self.values[n - 1];
            let lower = self.values[n - 2];
            self.values[n - 1] = lower;
            self.values[n - 2] = upper;
        }
    }

    /// Pushes the value on top once more. An empty stack stays empty.
    pub fn duplicate_top(&mut self)
        ensures
            final(self)@ == with_top_doubled(old(self)@),
            old(self)@.len() == 0 ==> final(self)@ == old(self)@,
    {
        let n = self.values.len();
        if n > 0 {
            let value = self.values[n - 1];
            self.values.push(value);
        }
    }

    /// Writes one value as the stack shows it.
    pub fn format_value(value: i64) -> (shown: Vec<u8>)
        ensures
            shown@ == value_text(value),
    {
        let mut shown: Vec<u8> = Vec::new();
        Stack::push_value(&mut shown, value);
        shown
    }

    /// Appends one value, as the stack shows it, to `out`.
    pub fn push_value(out: &mut Vec<u8>, value: i64)
        ensures
            final(out)@ == old(out)@ + value_text(value),
    {
        let bits: u64 = #[verifier::truncate] (value as u64);
        proof {
            assert(value >= 0 ==> bits == value) by (bit_vector)
                requires
                    bits == value as u64,
            ;
            assert(value < 0 ==> bits == value + 0x1_0000_0000_0000_0000) by (bit_vector)
                requires
                    bits == value as u64,
            ;
            assert(bits == bits_of(value));
        }
        append(out, "0x".as_bytes());
        if bits < 16 {
            out.push(48);
        }
        push_hex(out, bits);
        let ghost digits = hex_digits(bits as nat);
        proof {
            lemma_hex_digits_len(bits as nat);
            assert(out@ =~= old(out)@ + ("0x".spec_bytes() + (if digits.len() < 2 {
                seq![48u8] + digits
            } else {
                digits
            })));
        }
        if 0x20 <= value && value <= 0x7E {
            append(out, " ('".as_bytes());
            out.push(value as u8);
            append(out, "')".as_bytes());
            proof {
                assert(out@ =~= old(out)@ + value_text(value));
            }
        }
    }

    /// Writes the stack as it is shown.
    pub fn render(&self) -> (shown: Vec<u8>)
        ensures
            shown@ == stack_text(self@),
    {
        let mut shown: Vec<u8> = Vec::new();
        self.render_into(&mut shown);
        shown
    }

    /// Appends the stack, as it is shown, to `out`.
    pub fn render_into(&self, out: &mut Vec<u8>)
        ensures
            final(out)@ == old(out)@ + stack_text(self@),
    {
        append(out, "[".as_bytes());
        let mut i: usize = 0;
        proof {
            assert(self@.take(0) =~= Seq::<i64>::empty());
            assert(out@ =~= old(out)@ + "[".spec_bytes() + values_text(self@.take(0)));
        }
        while i < self.values.len()
            invariant
                i <= self@.len(),
                self@ == self.values@,
                out@ == old(out)@ + "[".spec_bytes() + values_text(self@.take(i as int)),
            decreases self@.len() - i,
        {
            let ghost before = out@;
            if i > 0 {
                append(out, ", ".as_bytes());
            }
            Stack::push_value(out, self.values[i]);
            proof {
                let shorter = self@.take(i as int);
                let longer = self@.take(i + 1);
                assert(longer.drop_last() =~= shorter);
                assert(longer.last() == self@[i as int]);
                if i == 0 {
                    assert(longer[0] == self@[0]);
                    assert(values_text(shorter) =~= Seq::<u8>::empty());
                    assert(out@ =~= old(out)@ + "[".spec_bytes() + values_text(longer));
                } else {
                    assert(out@ =~= old(out)@ + "[".spec_bytes() + values_text(longer));
                }
            }
            i = i + 1;
        }
        append(out, "]".as_bytes());
        proof {
            assert(self@.take(self@.len() as int) =~= self@);
            assert(out@ =~= old(out)@ + stack_text(self@));
        }
    }
}

/// A number below sixteen has one hexadecimal digit, any other has two at
/// least.
pub proof fn lemma_hex_digits_len(n: nat)
    ensures
        n < 16 ==> hex_digits(n).len() == 1,
        n >= 16 ==> hex_digits(n).len() >= 2,
        hex_digits(n).len() >= 1,
    decreases n,
{
    if n >= 16 {
        lemma_hex_digits_len(n / 16);
    }
}

} // verus!
