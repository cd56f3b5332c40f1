//! Writing unsigned integers as text in binary, decimal and hexadecimal.
use vstd::prelude::*;
use vstd::string::StringExecFns;

verus! {

/// The character for one digit; the digits from ten on are the capital letters `A` to `F`.
pub open spec fn digit_char(digit: nat) -> char {
    if digit == 0 {
        '0'
    } else if digit == 1 {
        '1'
    } else if digit == 2 {
        '2'
    } else if digit == 3 {
        '3'
    } else if digit == 4 {
        '4'
    } else if digit == 5 {
        '5'
    } else if digit == 6 {
        '6'
    } else if digit == 7 {
        '7'
    } else if digit == 8 {
        '8'
    } else if digit == 9 {
        '9'
    } else if digit == 10 {
        'A'
    } else if digit == 11 {
        'B'
    } else if digit == 12 {
        'C'
    } else if digit == 13 {
        'D'
    } else if digit == 14 {
        'E'
    } else {
        'F'
    }
}

/// The digits of `number` in the given radix, most significant first, with no leading
/// zero; zero is written as the single digit `0`.
pub open spec fn radix_text(number: nat, radix: nat) -> Seq<char>
    recommends
        2 <= radix <= 16,
    decreases number,
{
    if number < radix || radix < 2 {
        seq![digit_char(number)]
    } else {
        proof {
            vstd::arithmetic::div_mod::lemma_div_decreases(number as int, radix as int);
        }
        radix_text(number / radix, radix).push(digit_char(number % radix))
    }
}

/// `number` in binary.
pub open spec fn binary_text(number: nat) -> Seq<char> {
    radix_text(number, 2)
}

/// `number` in decimal.
pub open spec fn decimal_text(number: nat) -> Seq<char> {
    radix_text(number, 10)
}

/// `number` in hexadecimal, with capital letters.
pub open spec fn hex_text(number: nat) -> Seq<char> {
    radix_text(number, 16)
}

fn digit_str(digit: u128) -> (text: &'static str)
    requires
        digit < 16,
    ensures
        text@ == seq![digit_char(digit as nat)],
{
    proof {
        reveal_strlit("0");
        reveal_strlit("1");
        reveal_strlit("2");
        reveal_strlit("3");
        reveal_strlit("4");
        reveal_strlit("5");
        reveal_strlit("6");
        reveal_strlit("7");
        reveal_strlit("8");
        reveal_strlit("9");
        reveal_strlit("A");
        reveal_strlit("B");
        reveal_strlit("C");
        reveal_strlit("D");
        reveal_strlit("E");
        reveal_strlit("F");
    }
    let text = if digit == 0 {
        "0"
    } else if digit == 1 {
        "1"
    } else if digit == 2 {
        "2"
    } else if digit == 3 {
        "3"
    } else if digit == 4 {
        "4"
    } else if digit == 5 {
        "5"
    } else if digit == 6 {
        "6"
    } else if digit == 7 {
        "7"
    } else if digit == 8 {
        "8"
    } else if digit == 9 {
        "9"
    } else if digit == 10 {
        "A"
    } else if digit == 11 {
        "B"
    } else if digit == 12 {
        "C"
    } else if digit == 13 {
        "D"
    } else if digit == 14 {
        "E"
    } else {
        "F"
    };
    assert(text@ =~= seq![digit_char(digit as nat)]);
    text
}

/// Writes `number` in the given radix.
pub fn radix_string(number: u128, radix: u128) -> (text: String)
    requires
        2 <= radix <= 16,
    ensures
        text@ == radix_text(number as nat, radix as nat),
    decreases number,
{
    if number < radix {
        String::from_str(digit_str(number))
    } else {
        proof {
            vstd::arithmetic::div_mod::lemma_div_decreases(number as int, radix as int);
            vstd::arithmetic::div_mod::lemma_mod_bound(number as int, radix as int);
        }
        let mut text = radix_string(number / radix, radix);
        text.append(digit_str(number % radix));
        assert(text@ =~= radix_text(number as nat, radix as nat));
        text
    }
}

/// Writes `number` in binary.
pub fn binary_string(number: u128) -> (text: String)
    ensures
        text@ == binary_text(number as nat),
{
    radix_string(number, 2)
}

/// Writes `number` in decimal.
pub fn decimal_string(number: u128) -> (text: String)
    ensures
        text@ == decimal_text(number as nat),
{
    radix_string(number, 10)
}

/// Writes `number` in hexadecimal, with capital letters.
pub fn hex_string(number: u128) -> (text: String)
    ensures
        text@ == hex_text(number as nat),
{
    radix_string(number, 16)
}

} // verus!
