//! The value/operation handler: accumulates typed digits into decimal
//! values and records pending arithmetic operations in order. It never
//! evaluates; its one observable output is the display string of the
//! latest value.

use vstd::prelude::*;

use crate::numeral::{digit_chars, digits_value, digits_wf, digit_str, step_digits, Numeral};

verus! {

use vstd::string::StringExecFns;

/// A signed decimal literal being typed: unbounded integer part, an
/// optional raw fractional digit tail, and a sign flag.
#[derive(Debug, Clone)]
pub struct ValueWrap {
    pub main_value: Numeral,
    pub sub_value: Option<Vec<u8>>,
    pub is_negative: bool,
}

/// The mathematical content of a `ValueWrap`: integer digits, optional
/// fractional digits, sign.
pub ghost struct WrapView {
    pub main: Seq<u8>,
    pub sub: Option<Seq<u8>>,
    pub neg: bool,
}

impl View for ValueWrap {
    type V = WrapView;

    open spec fn view(&self) -> WrapView {
        WrapView {
            main: self.main_value@,
            sub: match self.sub_value {
                Option::Some(v) => Option::Some(v@),
                Option::None => Option::None,
            },
            neg: self.is_negative,
        }
    }
}

impl WrapView {
    /// The freshly constructed value: zero, no fractional part, positive.
    pub open spec fn zero() -> WrapView {
        WrapView { main: seq![0u8], sub: Option::None, neg: false }
    }

    /// A fresh value started from a single digit.
    pub open spec fn from_digit(d: u8) -> WrapView {
        WrapView { main: seq![d], sub: Option::None, neg: false }
    }

    /// The integer digits form a decimal numeral and every fractional
    /// digit is at most 9.
    pub open spec fn wf(self) -> bool {
        &&& digits_wf(self.main)
        &&& match self.sub {
            Option::Some(f) => forall|i: int| 0 <= i < f.len() ==> f[i] <= 9,
            Option::None => true,
        }
    }

    /// Typing one digit: appended to the fractional tail when a decimal
    /// point has been entered, otherwise folded into the integer part.
    pub open spec fn append_digit(self, d: u8) -> WrapView {
        match self.sub {
            Option::Some(f) => WrapView { main: self.main, sub: Option::Some(f.push(d)), neg: self.neg },
            Option::None => WrapView { main: step_digits(self.main, d), sub: self.sub, neg: self.neg },
        }
    }

    /// The display text: optional '-', the integer digits, and when a
    /// decimal point has been entered a '.' followed by the fractional
    /// digits (possibly none).
    pub open spec fn render(self) -> Seq<char> {
        (if self.neg {
            seq!['-']
        } else {
            Seq::<char>::empty()
        }) + digit_chars(self.main) + (match self.sub {
            Option::Some(f) => seq!['.'] + digit_chars(f),
            Option::None => Seq::<char>::empty(),
        })
    }
}

impl Default for ValueWrap {
    /// The default value: zero, no fractional part, positive.
    fn default() -> (r: Self)
        ensures
            r@ == WrapView::zero(),
            r@.wf(),
    {
        ValueWrap { main_value: Numeral::zero(), sub_value: Option::None, is_negative: false }
    }
}

impl ValueWrap {
    /// A freshly constructed value, equal to the default.
    pub fn new() -> (r: Self)
        ensures
            r@ == WrapView::zero(),
            r@.wf(),
    {
        Self::default()
    }

    /// Replaces all three fields atomically.
    pub fn set_value(&mut self, value: Numeral, is_negative: bool, sub_value: Option<Vec<u8>>)
        requires
            value.wf(),
            (sub_value matches Option::Some(f) ==> forall|i: int| 0 <= i < f@.len() ==> f@[i] <= 9),
        ensures
            final(self)@ == (WrapView {
                main: value@,
                sub: match sub_value {
                    Option::Some(f) => Option::Some(f@),
                    Option::None => Option::None,
                },
                neg: is_negative,
            }),
            final(self)@.wf(),
    {
        self.main_value = value;
        self.is_negative = is_negative;
        self.sub_value = sub_value;
    }

    /// Resets to the default value.
    pub fn clear(&mut self)
        ensures
            final(self)@ == WrapView::zero(),
            final(self)@.wf(),
    {
        *self = Self::new();
    }

    /// Types one digit. With no fractional tail this multiplies the
    /// integer part by ten and adds the digit, so leading zeros are
    /// absorbed; with a fractional tail the digit is appended to it.
    pub fn append_digit(&mut self, digit: u8)
        requires
            old(self)@.wf(),
            digit <= 9,
        ensures
            final(self)@ == old(self)@.append_digit(digit),
            final(self)@.wf(),
            old(self)@.sub is None ==> digits_value(final(self)@.main) == 10 * digits_value(
                old(self)@.main,
            ) + digit,
    {
        let mut taken: Option<Vec<u8>> = Option::None;
        core::mem::swap(&mut taken, &mut self.sub_value);
        match taken {
            Option::Some(mut f) => {
                f.push(digit);
                self.sub_value = Option::Some(f);
            },
            Option::None => {
                self.main_value.times10_plus(digit);
            },
        }
    }

    /// Enters (or re-enters) the fractional part: the fractional tail is
    /// set to the empty digit sequence, even when one was already
    /// present.
    pub fn append_to_sub_value(&mut self)
        ensures
            final(self)@ == (WrapView {
                main: old(self)@.main,
                sub: Option::Some(Seq::<u8>::empty()),
                neg: old(self)@.neg,
            }),
            old(self)@.wf() ==> final(self)@.wf(),
    {
        self.sub_value = Option::Some(Vec::new());
    }

    /// Marks the value negative; setting twice is idempotent.
    pub fn set_negative(&mut self)
        ensures
            final(self)@ == (WrapView { main: old(self)@.main, sub: old(self)@.sub, neg: true }),
            old(self)@.wf() ==> final(self)@.wf(),
    {
        self.is_negative = true;
    }

    /// The display text of this value.
    pub fn display_string(&self) -> (r: String)
        requires
            self@.wf(),
        ensures
            r@ == self@.render(),
    {
        let mut r = String::new();
        if self.is_negative {
            proof {
                reveal_strlit("-");
            }
            r.append("-");
        }
        let main_str = self.main_value.to_decimal_string();
        r.append(main_str.as_str());
        match &self.sub_value {
            Option::Some(f) => {
                proof {
                    reveal_strlit(".");
                }
                r.append(".");
                let ghost prefix = r@;
                proof {
                    assert(self@.sub == Option::Some(f@));
                    assert forall|j: int| 0 <= j < f@.len() implies f@[j] <= 9 by {
                        assert(match self@.sub {
                            Option::Some(fs) => fs[j] <= 9,
                            Option::None => true,
                        });
                    }
                    assert(r@ =~= prefix + digit_chars(f@.take(0)));
                }
                let mut i: usize = 0;
                while i < f.len()
                    invariant
                        i <= f.len(),
                        forall|j: int| 0 <= j < f@.len() ==> f@[j] <= 9,
                        r@ == prefix + digit_chars(f@.take(i as int)),
                    decreases f.len() - i,
                {
                    let d = *f.get(i).unwrap();
                    r.append(digit_str(d));
                    i = i + 1;
                    proof {
                        assert(r@ =~= prefix + digit_chars(f@.take(i as int)));
                    }
                }
                proof {
                    assert(f@.take(f@.len() as int) =~= f@);
                    assert(r@ =~= self@.render());
                }
            },
            Option::None => {
                proof {
                    assert(r@ =~= self@.render());
                }
            },
        }
        r
    }
}

/// One step of user input: an arithmetic operator placeholder, or a
/// value being or having been typed.
#[derive(Debug, Clone)]
pub enum Operation {
    Add,
    Subtract,
    Multiply,
    Divide,
    Value(ValueWrap),
}

/// The mathematical content of an `Operation`.
pub ghost enum OpView {
    Add,
    Subtract,
    Multiply,
    Divide,
    Value(WrapView),
}

impl View for Operation {
    type V = OpView;

    open spec fn view(&self) -> OpView {
        match self {
            Operation::Add => OpView::Add,
            Operation::Subtract => OpView::Subtract,
            Operation::Multiply => OpView::Multiply,
            Operation::Divide => OpView::Divide,
            Operation::Value(v) => OpView::Value(v@),
        }
    }
}

impl OpView {
    pub open spec fn wf(self) -> bool {
        match self {
            OpView::Value(v) => v.wf(),
            _ => true,
        }
    }
}

impl Default for Operation {
    /// The default operation: the zero value, still editable.
    fn default() -> (r: Self)
        ensures
            r@ == OpView::Value(WrapView::zero()),
            r@.wf(),
    {
        Operation::Value(ValueWrap::default())
    }
}

/// Owns the stack of confirmed operations and the operation being
/// edited.
#[derive(Debug)]
pub struct ValueHandler {
    pub operation_stack: Vec<Operation>,
    pub current_operation: Operation,
}

/// The mathematical content of a `ValueHandler`.
pub ghost struct HandlerView {
    pub stack: Seq<OpView>,
    pub current: OpView,
}

impl View for ValueHandler {
    type V = HandlerView;

    open spec fn view(&self) -> HandlerView {
        HandlerView {
            stack: self.operation_stack@.map_values(|op: Operation| op@),
            current: self.current_operation@,
        }
    }
}

/// The display text recovered from a stack alone: the most recently
/// pushed value, or "0" when the stack holds no value.
pub open spec fn last_value_render(s: Seq<OpView>) -> Seq<char>
    decreases s.len(),
{
    if s.len() == 0 {
        seq!['0']
    } else {
        match s.last() {
            OpView::Value(v) => v.render(),
            _ => last_value_render(s.drop_last()),
        }
    }
}

impl HandlerView {
    /// The freshly constructed handler: empty stack, editing zero.
    pub open spec fn init() -> HandlerView {
        HandlerView { stack: Seq::<OpView>::empty(), current: OpView::Value(WrapView::zero()) }
    }

    pub open spec fn wf(self) -> bool {
        &&& (forall|i: int| 0 <= i < self.stack.len() ==> self.stack[i].wf())
        &&& self.current.wf()
    }

    /// Confirming: the current operation moves onto the stack and editing
    /// restarts from the default value.
    pub open spec fn confirm(self) -> HandlerView {
        HandlerView { stack: self.stack.push(self.current), current: OpView::Value(WrapView::zero()) }
    }

    /// Pressing an operator: a value being edited is first confirmed onto
    /// the stack; a pending operator is simply overwritten (last wins).
    pub open spec fn press(self, op: OpView) -> HandlerView {
        if self.current is Value {
            HandlerView { stack: self.stack.push(self.current), current: op }
        } else {
            HandlerView { stack: self.stack, current: op }
        }
    }

    /// Typing a digit: appended to the value being edited; after an
    /// operator, the operator is confirmed onto the stack and a fresh
    /// value starts from that digit.
    pub open spec fn append_digit(self, d: u8) -> HandlerView {
        match self.current {
            OpView::Value(v) => HandlerView { stack: self.stack, current: OpView::Value(v.append_digit(d)) },
            _ => HandlerView {
                stack: self.stack.push(self.current),
                current: OpView::Value(WrapView::from_digit(d)),
            },
        }
    }

    /// One recognized keyboard event: Escape clears everything, a digit
    /// key appends its digit.
    pub open spec fn on_key(self, key: KeyInput) -> HandlerView {
        match key.digit() {
            Option::Some(d) => self.append_digit(d),
            Option::None => HandlerView::init(),
        }
    }

    /// The display text: the value being edited, else the most recent
    /// value on the stack, else "0".
    pub open spec fn display(self) -> Seq<char> {
        match self.current {
            OpView::Value(v) => v.render(),
            _ => last_value_render(self.stack),
        }
    }
}

/// The keyboard events the calculator recognizes: Escape and the ten
/// digit keys.
#[derive(Debug, Clone, Copy, PartialEq, Eq, Structural)]
pub enum KeyInput {
    Escape,
    Num0,
    Num1,
    Num2,
    Num3,
    Num4,
    Num5,
    Num6,
    Num7,
    Num8,
    Num9,
}

impl KeyInput {
    /// The digit a digit key enters; Escape carries none.
    pub open spec fn digit(self) -> Option<u8> {
        match self {
            KeyInput::Escape => Option::None,
            KeyInput::Num0 => Option::Some(0u8),
            KeyInput::Num1 => Option::Some(1u8),
            KeyInput::Num2 => Option::Some(2u8),
            KeyInput::Num3 => Option::Some(3u8),
            KeyInput::Num4 => Option::Some(4u8),
            KeyInput::Num5 => Option::Some(5u8),
            KeyInput::Num6 => Option::Some(6u8),
            KeyInput::Num7 => Option::Some(7u8),
            KeyInput::Num8 => Option::Some(8u8),
            KeyInput::Num9 => Option::Some(9u8),
        }
    }
}

impl Default for ValueHandler {
    /// The freshly constructed handler: empty stack, editing zero.
    fn default() -> (r: Self)
        ensures
            r@ == HandlerView::init(),
            r@.wf(),
    {
        let r = ValueHandler {
            operation_stack: Vec::new(),
            current_operation: Operation::default(),
        };
        proof {
            assert(r@.stack =~= Seq::<OpView>::empty());
        }
        r
    }
}

impl ValueHandler {
    /// The textual form of the most recent value: the value being
    /// edited, else the most recent value on the stack, else "0".
    pub fn main_display(&self) -> (r: String)
        requires
            self@.wf(),
        ensures
            r@ == self@.display(),
    {
        match &self.current_operation {
            Operation::Value(v) => {
                proof {
                    assert(self@.display() == v@.render());
                }
                v.display_string()
            },
            _ => {
                proof {
                    assert(self@.display() == last_value_render(self@.stack));
                }
                let mut i: usize = self.operation_stack.len();
                proof {
                    assert(self@.stack.take(i as int) =~= self@.stack);
                }
                loop
                    invariant
                        i <= self.operation_stack.len(),
                        self@.wf(),
                        self@.display() == last_value_render(self@.stack.take(i as int)),
                    decreases i,
                {
                    if i == 0 {
                        proof {
                            assert(self@.stack.take(0) =~= Seq::<OpView>::empty());
                            reveal_strlit("0");
                        }
                        let r = String::from_str("0");
                        proof {
                            assert(r@ =~= seq!['0']);
                        }
                        return r;
                    }
                    i = i - 1;
                    proof {
                        assert(self@.stack.take(i + 1).drop_last() =~= self@.stack.take(i as int));
                        assert(self@.stack.take(i + 1).last() == self@.stack[i as int]);
                    }
                    match self.operation_stack.get(i).unwrap() {
                        Operation::Value(v) => {
                            proof {
                                assert(self@.stack[i as int] == OpView::Value(v@));
                                assert(last_value_render(self@.stack.take(i + 1)) == v@.render());
                            }
                            return v.display_string();
                        },
                        _ => {
                            proof {
                                assert(!(self@.stack[i as int] is Value));
                            }
                        },
                    }
                }
            },
        }
    }

    /// Moves the current operation onto the stack and restarts editing
    /// from the default value.
    pub fn confirm_operation(&mut self)
        requires
            old(self)@.wf(),
        ensures
            final(self)@ == old(self)@.confirm(),
            final(self)@.wf(),
    {
        let mut op = Operation::default();
        core::mem::swap(&mut op, &mut self.current_operation);
        self.operation_stack.push(op);
        proof {
            assert(self@.stack =~= old(self)@.stack.push(old(self)@.current));
        }
    }

    /// Selects addition. A value being edited is first confirmed; a
    /// pending operator is overwritten and the stack is unchanged.
    pub fn add(&mut self)
        requires
            old(self)@.wf(),
        ensures
            final(self)@ == old(self)@.press(OpView::Add),
            final(self)@.wf(),
            !(old(self)@.current is Value) ==> final(self)@.stack == old(self)@.stack,
    {
        let is_value = match &self.current_operation {
            Operation::Value(_) => true,
            _ => false,
        };
        if is_value {
            self.confirm_operation();
        }
        self.current_operation = Operation::Add;
        proof {
            assert(self@.stack =~= old(self)@.press(OpView::Add).stack);
        }
    }

    /// Selects subtraction, as `add` does.
    pub fn subtract(&mut self)
        requires
            old(self)@.wf(),
        ensures
            final(self)@ == old(self)@.press(OpView::Subtract),
            final(self)@.wf(),
            !(old(self)@.current is Value) ==> final(self)@.stack == old(self)@.stack,
    {
        let is_value = match &self.current_operation {
            Operation::Value(_) => true,
            _ => false,
        };
        if is_value {
            self.confirm_operation();
        }
        self.current_operation = Operation::Subtract;
        proof {
            assert(self@.stack =~= old(self)@.press(OpView::Subtract).stack);
        }
    }

    /// Selects multiplication, as `add` does.
    pub fn multiply(&mut self)
        requires
            old(self)@.wf(),
        ensures
            final(self)@ == old(self)@.press(OpView::Multiply),
            final(self)@.wf(),
            !(old(self)@.current is Value) ==> final(self)@.stack == old(self)@.stack,
    {
        let is_value = match &self.current_operation {
            Operation::Value(_) => true,
            _ => false,
        };
        if is_value {
            self.confirm_operation();
        }
        self.current_operation = Operation::Multiply;
        proof {
            assert(self@.stack =~= old(self)@.press(OpView::Multiply).stack);
        }
    }

    /// Selects division, as `add` does.
    pub fn divide(&mut self)
        requires
            old(self)@.wf(),
        ensures
            final(self)@ == old(self)@.press(OpView::Divide),
            final(self)@.wf(),
            !(old(self)@.current is Value) ==> final(self)@.stack == old(self)@.stack,
    {
        let is_value = match &self.current_operation {
            Operation::Value(_) => true,
            _ => false,
        };
        if is_value {
            self.confirm_operation();
        }
        self.current_operation = Operation::Divide;
        proof {
            assert(self@.stack =~= old(self)@.press(OpView::Divide).stack);
        }
    }

    /// Types a digit: appended to the value being edited; after an
    /// operator press, the operator is confirmed onto the stack and a
    /// fresh value starts from this digit.
    pub fn append_digit(&mut self, digit: u8)
        requires
            old(self)@.wf(),
            digit <= 9,
        ensures
            final(self)@ == old(self)@.append_digit(digit),
            final(self)@.wf(),
    {
        let mut cur = Operation::default();
        core::mem::swap(&mut cur, &mut self.current_operation);
        match cur {
            Operation::Value(mut v) => {
                v.append_digit(digit);
                self.current_operation = Operation::Value(v);
            },
            other => {
                self.operation_stack.push(other);
                let mut value = ValueWrap::new();
                value.set_value(Numeral::from_digit(digit), false, Option::None);
                self.current_operation = Operation::Value(value);
                proof {
                    assert(self@.stack =~= old(self)@.stack.push(old(self)@.current));
                }
            },
        }
    }

    /// Routes one recognized keyboard event: Escape clears everything,
    /// a digit key appends its digit.
    pub fn handle_key(&mut self, key: KeyInput)
        requires
            old(self)@.wf(),
        ensures
            final(self)@ == old(self)@.on_key(key),
            final(self)@.wf(),
    {
        match key {
            KeyInput::Escape => self.clear_all(),
            KeyInput::Num0 => self.append_digit(0),
            KeyInput::Num1 => self.append_digit(1),
            KeyInput::Num2 => self.append_digit(2),
            KeyInput::Num3 => self.append_digit(3),
            KeyInput::Num4 => self.append_digit(4),
            KeyInput::Num5 => self.append_digit(5),
            KeyInput::Num6 => self.append_digit(6),
            KeyInput::Num7 => self.append_digit(7),
            KeyInput::Num8 => self.append_digit(8),
            KeyInput::Num9 => self.append_digit(9),
        }
    }

    /// Resets to freshly constructed defaults; the display then reads
    /// "0".
    pub fn clear_all(&mut self)
        ensures
            final(self)@ == HandlerView::init(),
            final(self)@.wf(),
            final(self)@.display() == seq!['0'],
    {
        *self = ValueHandler::default();
        proof {
            assert(self@.display() =~= seq!['0']);
        }
    }
}

} // verus!
