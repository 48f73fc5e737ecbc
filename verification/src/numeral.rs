//! An unbounded non-negative decimal numeral, kept as its sequence of
//! decimal digits (most significant first). This is all the calculator
//! needs of big integers: multiply by ten and add a digit, and render in
//! base 10.

use vstd::prelude::*;

verus! {

use vstd::string::StringExecFns;

/// A well-formed digit sequence: at least one digit, every digit is at
/// most 9, and no leading zero except for the numeral "0" itself.
pub open spec fn digits_wf(s: Seq<u8>) -> bool {
    &&& s.len() >= 1
    &&& (forall|i: int| 0 <= i < s.len() ==> s[i] <= 9)
    &&& (s.len() > 1 ==> s[0] != 0)
}

/// The number a digit sequence denotes in base 10.
pub open spec fn digits_value(s: Seq<u8>) -> nat
    decreases s.len(),
{
    if s.len() == 0 {
        0
    } else {
        digits_value(s.drop_last()) * 10 + (s.last() as nat)
    }
}

/// The character of a single decimal digit.
pub open spec fn digit_char(d: u8) -> char {
    if d == 0 {
        '0'
    } else if d == 1 {
        '1'
    } else if d == 2 {
        '2'
    } else if d == 3 {
        '3'
    } else if d == 4 {
        '4'
    } else if d == 5 {
        '5'
    } else if d == 6 {
        '6'
    } else if d == 7 {
        '7'
    } else if d == 8 {
        '8'
    } else {
        '9'
    }
}

/// The digit a decimal character denotes.
pub open spec fn char_val(c: char) -> u8 {
    if c == '0' {
        0
    } else if c == '1' {
        1
    } else if c == '2' {
        2
    } else if c == '3' {
        3
    } else if c == '4' {
        4
    } else if c == '5' {
        5
    } else if c == '6' {
        6
    } else if c == '7' {
        7
    } else if c == '8' {
        8
    } else {
        9
    }
}

/// A digit sequence rendered as characters.
pub open spec fn digit_chars(s: Seq<u8>) -> Seq<char> {
    s.map_values(|d: u8| digit_char(d))
}

/// A character sequence read back as a base-10 number.
pub open spec fn parse_dec(s: Seq<char>) -> nat
    decreases s.len(),
{
    if s.len() == 0 {
        0
    } else {
        parse_dec(s.drop_last()) * 10 + (char_val(s.last()) as nat)
    }
}

/// One more digit typed after an existing numeral: a lone zero is
/// absorbed, otherwise the digit is appended.
pub open spec fn step_digits(s: Seq<u8>, d: u8) -> Seq<u8> {
    if s == seq![0u8] {
        seq![d]
    } else {
        s.push(d)
    }
}

pub proof fn lemma_digits_value_singleton(d: u8)
    ensures
        digits_value(seq![d]) == d,
{
    assert(seq![d].drop_last() =~= Seq::<u8>::empty());
    assert(digits_value(Seq::<u8>::empty()) == 0);
}

pub proof fn lemma_digits_value_push(s: Seq<u8>, d: u8)
    ensures
        digits_value(s.push(d)) == 10 * digits_value(s) + d,
{
    assert(s.push(d).drop_last() =~= s);
    assert(s.push(d).last() == d);
}

/// Typing one more digit keeps the digit sequence well formed and has the
/// numeric effect of multiplying by ten and adding the digit.
pub proof fn lemma_step_digits(s: Seq<u8>, d: u8)
    requires
        digits_wf(s),
        d <= 9,
    ensures
        digits_wf(step_digits(s, d)),
        digits_value(step_digits(s, d)) == 10 * digits_value(s) + d,
{
    if s == seq![0u8] {
        lemma_digits_value_singleton(0);
        lemma_digits_value_singleton(d);
    } else {
        lemma_digits_value_push(s, d);
        if s.len() == 1 {
            assert(s[0] != 0) by {
                if s[0] == 0 {
                    assert(s =~= seq![0u8]);
                }
            }
        }
    }
}

pub proof fn lemma_char_val_digit(d: u8)
    requires
        d <= 9,
    ensures
        char_val(digit_char(d)) == d,
{
}

/// Reading the rendering of a digit sequence back recovers its value.
pub proof fn lemma_parse_digit_chars(s: Seq<u8>)
    requires
        forall|i: int| 0 <= i < s.len() ==> s[i] <= 9,
    ensures
        parse_dec(digit_chars(s)) == digits_value(s),
    decreases s.len(),
{
    if s.len() == 0 {
        assert(digit_chars(s) =~= Seq::<char>::empty());
    } else {
        lemma_parse_digit_chars(s.drop_last());
        assert(digit_chars(s).drop_last() =~= digit_chars(s.drop_last()));
        assert(digit_chars(s).last() == digit_char(s.last()));
        lemma_char_val_digit(s.last());
    }
}

/// An unbounded non-negative integer, as its base-10 digits, most
/// significant first.
#[derive(Debug, Clone)]
pub struct Numeral {
    pub digits: Vec<u8>,
}

impl View for Numeral {
    type V = Seq<u8>;

    open spec fn view(&self) -> Seq<u8> {
        self.digits@
    }
}

impl Numeral {
    pub open spec fn wf(&self) -> bool {
        digits_wf(self@)
    }

    pub open spec fn as_nat(&self) -> nat {
        digits_value(self@)
    }

    /// The numeral zero, rendered "0".
    pub fn zero() -> (r: Self)
        ensures
            r@ == seq![0u8],
            r.wf(),
            r.as_nat() == 0,
    {
        let mut digits: Vec<u8> = Vec::new();
        digits.push(0);
        let r = Numeral { digits };
        proof {
            assert(r@ =~= seq![0u8]);
            lemma_digits_value_singleton(0);
        }
        r
    }

    /// The numeral of a single digit.
    pub fn from_digit(d: u8) -> (r: Self)
        requires
            d <= 9,
        ensures
            r@ == seq![d],
            r.wf(),
            r.as_nat() == d,
    {
        let mut digits: Vec<u8> = Vec::new();
        digits.push(d);
        let r = Numeral { digits };
        proof {
            assert(r@ =~= seq![d]);
            lemma_digits_value_singleton(d);
        }
        r
    }

    /// A numeral from an explicit well-formed digit vector.
    pub fn from_digits(digits: Vec<u8>) -> (r: Self)
        requires
            digits_wf(digits@),
        ensures
            r@ == digits@,
            r.wf(),
    {
        Numeral { digits }
    }

    /// Whether this numeral is zero.
    pub fn is_zero(&self) -> (r: bool)
        requires
            self.wf(),
        ensures
            r == (self@ == seq![0u8]),
    {
        let r = self.digits.len() == 1 && *self.digits.get(0).unwrap() == 0;
        proof {
            if r {
                assert(self@ =~= seq![0u8]);
            } else {
                if self@ == seq![0u8] {
                    assert(self@.len() == 1);
                    assert(self@[0] == 0);
                }
            }
        }
        r
    }

    /// Multiply by ten and add one digit: the effect of typing `d` after
    /// the digits typed so far. A lone zero is absorbed, so leading
    /// zeros never accumulate.
    pub fn times10_plus(&mut self, d: u8)
        requires
            old(self).wf(),
            d <= 9,
        ensures
            final(self)@ == step_digits(old(self)@, d),
            final(self).wf(),
            final(self).as_nat() == 10 * old(self).as_nat() + d,
    {
        proof {
            lemma_step_digits(self@, d);
        }
        if self.is_zero() {
            self.digits = Vec::new();
            self.digits.push(d);
            proof {
                assert(self@ =~= seq![d]);
            }
        } else {
            self.digits.push(d);
        }
    }
}

/// The one-character string of a decimal digit.
pub fn digit_str(d: u8) -> (r: &'static str)
    requires
        d <= 9,
    ensures
        r@ == seq![digit_char(d)],
{
    proof {
        reveal_strlit("0");
        reveal_strlit("1");
        reveal_strlit("2");
        reveal_strlit("3");
        reveal_strlit("4");
        reveal_strlit("5");
        reveal_strlit("6");
        reveal_strlit("7");
        reveal_strlit("8");
        reveal_strlit("9");
    }
    let r: &'static str = if d == 0 {
        "0"
    } else if d == 1 {
        "1"
    } else if d == 2 {
        "2"
    } else if d == 3 {
        "3"
    } else if d == 4 {
        "4"
    } else if d == 5 {
        "5"
    } else if d == 6 {
        "6"
    } else if d == 7 {
        "7"
    } else if d == 8 {
        "8"
    } else {
        "9"
    };
    proof {
        assert(r@ =~= seq![digit_char(d)]);
    }
    r
}

impl Numeral {
    /// The base-10 rendering of this numeral, one character per digit.
    pub fn to_decimal_string(&self) -> (r: String)
        requires
            forall|i: int| 0 <= i < self@.len() ==> self@[i] <= 9,
        ensures
            r@ == digit_chars(self@),
    {
        let mut r = String::new();
        proof {
            assert(r@ =~= digit_chars(self@.take(0)));
        }
        let mut i: usize = 0;
        while i < self.digits.len()
            invariant
                i <= self.digits.len(),
                forall|j: int| 0 <= j < self@.len() ==> self@[j] <= 9,
                r@ == digit_chars(self@.take(i as int)),
            decreases self.digits.len() - i,
        {
            let d = *self.digits.get(i).unwrap();
            r.append(digit_str(d));
            i = i + 1;
            proof {
                assert(r@ =~= digit_chars(self@.take(i as int)));
            }
        }
        proof {
            assert(self@.take(self@.len() as int) =~= self@);
            assert(r@ == digit_chars(self@.take(self@.len() as int)));
        }
        r
    }
}

} // verus!
