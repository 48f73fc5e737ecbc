//! The handler's guarantees over whole input sequences, proved from the
//! transition functions that the methods' contracts are stated over.

use vstd::prelude::*;

use crate::numeral::{
    digit_char, digit_chars, digits_value, digits_wf, lemma_digits_value_singleton,
    lemma_parse_digit_chars, lemma_step_digits, parse_dec, step_digits,
};
use crate::value_handler::{HandlerView, OpView, WrapView};

verus! {

/// The integer digits held after typing the digits `ds` in order into a
/// fresh value: each step absorbs a lone zero or appends.
pub open spec fn entered_digits(ds: Seq<u8>) -> Seq<u8>
    decreases ds.len(),
{
    if ds.len() == 0 {
        seq![0u8]
    } else {
        step_digits(entered_digits(ds.drop_last()), ds.last())
    }
}

/// The handler state after a fresh start followed by the digit entries
/// `ds`, with no operator interleaved.
pub open spec fn handler_after_digits(ds: Seq<u8>) -> HandlerView
    decreases ds.len(),
{
    if ds.len() == 0 {
        HandlerView::init()
    } else {
        handler_after_digits(ds.drop_last()).append_digit(ds.last())
    }
}

/// Entering any digit sequence into a fresh handler leaves an empty
/// stack and displays exactly the base-10 numeral of the entered
/// digits: no leading zeros, and "0" when nothing (or only zeros) was
/// typed.
pub proof fn lemma_digit_entries(ds: Seq<u8>)
    requires
        forall|i: int| 0 <= i < ds.len() ==> ds[i] <= 9,
    ensures
        handler_after_digits(ds) == (HandlerView {
            stack: Seq::<OpView>::empty(),
            current: OpView::Value(
                WrapView { main: entered_digits(ds), sub: Option::None, neg: false },
            ),
        }),
        digits_wf(entered_digits(ds)),
        digits_value(entered_digits(ds)) == digits_value(ds),
        handler_after_digits(ds).display() == digit_chars(entered_digits(ds)),
    decreases ds.len(),
{
    if ds.len() == 0 {
        lemma_digits_value_singleton(0);
        assert(handler_after_digits(ds).display() =~= digit_chars(entered_digits(ds)));
    } else {
        let dl = ds.drop_last();
        let d = ds.last();
        assert forall|i: int| 0 <= i < dl.len() implies dl[i] <= 9 by {
            assert(dl[i] == ds[i]);
        }
        lemma_digit_entries(dl);
        lemma_step_digits(entered_digits(dl), d);
        assert(handler_after_digits(ds).display() =~= digit_chars(entered_digits(ds)));
    }
}

/// When the first typed digit is not zero, nothing is absorbed: the
/// display after the digit entries `ds` is their concatenation, one
/// character per typed digit.
pub proof fn lemma_nonzero_digit_entries(ds: Seq<u8>)
    requires
        forall|i: int| 0 <= i < ds.len() ==> ds[i] <= 9,
        ds.len() > 0,
        ds[0] != 0,
    ensures
        entered_digits(ds) == ds,
        handler_after_digits(ds).display() == digit_chars(ds),
    decreases ds.len(),
{
    let dl = ds.drop_last();
    let d = ds.last();
    if dl.len() == 0 {
        assert(entered_digits(dl) == seq![0u8]);
        assert(entered_digits(ds) =~= ds);
    } else {
        assert forall|i: int| 0 <= i < dl.len() implies dl[i] <= 9 by {
            assert(dl[i] == ds[i]);
        }
        assert(dl[0] == ds[0]);
        lemma_nonzero_digit_entries(dl);
        assert(dl != seq![0u8]) by {
            assert(dl[0] != 0);
            assert(seq![0u8][0] == 0);
        }
        assert(entered_digits(ds) =~= ds);
    }
    lemma_digit_entries(ds);
}

/// After an operator press from a state that was editing a value, the
/// next digit starts a fresh value equal to that digit: the display
/// shows just the digit, and the previously shown value sits on the
/// stack, followed by the operator.
pub proof fn lemma_operator_then_digit(h: HandlerView, op: OpView, d: u8)
    requires
        h.current is Value,
        !(op is Value),
        d <= 9,
    ensures
        ({
            let typed = h.press(op).append_digit(d);
            &&& typed.current == OpView::Value(WrapView::from_digit(d))
            &&& typed.display() == seq![digit_char(d)]
            &&& typed.stack == h.stack.push(h.current).push(op)
            &&& typed.stack[h.stack.len() as int] == h.current
        }),
{
    let typed = h.press(op).append_digit(d);
    assert(typed.display() =~= seq![digit_char(d)]);
    assert(typed.stack =~= h.stack.push(h.current).push(op));
}

/// The handler state after a sequence of operator presses.
pub open spec fn press_all(h: HandlerView, ops: Seq<OpView>) -> HandlerView
    decreases ops.len(),
{
    if ops.len() == 0 {
        h
    } else {
        press_all(h, ops.drop_last()).press(ops.last())
    }
}

/// Repeated operator presses with no intervening digit never touch the
/// stack: each press only overwrites the pending operator, and the last
/// one wins.
pub proof fn lemma_repeated_operators(h: HandlerView, ops: Seq<OpView>)
    requires
        !(h.current is Value),
        forall|i: int| 0 <= i < ops.len() ==> !(ops[i] is Value),
    ensures
        press_all(h, ops).stack == h.stack,
        press_all(h, ops).current == if ops.len() == 0 {
            h.current
        } else {
            ops.last()
        },
    decreases ops.len(),
{
    if ops.len() > 0 {
        let dl = ops.drop_last();
        assert forall|i: int| 0 <= i < dl.len() implies !(dl[i] is Value) by {
            assert(dl[i] == ops[i]);
        }
        lemma_repeated_operators(h, dl);
    }
}

/// Render round trip: for a value with no fractional part and a
/// non-negative sign, reading its display text back as a base-10
/// number recovers the integer part's value.
pub proof fn lemma_render_round_trip(w: WrapView)
    requires
        w.wf(),
        w.sub is None,
        !w.neg,
    ensures
        parse_dec(w.render()) == digits_value(w.main),
{
    assert(w.render() =~= digit_chars(w.main));
    lemma_parse_digit_chars(w.main);
}

} // verus!
