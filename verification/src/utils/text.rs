//! Small helpers on strings.

use vstd::prelude::*;
use vstd::string::*;

verus! {

broadcast use vstd::string::group_string_axioms;

/// `==` of std on two string slices: true exactly when both hold the same
/// sequence of characters.
#[verifier::external_body]
pub(crate) fn str_eq(a: &str, b: &str) -> (same: bool)
    ensures
        same == (a@ == b@),
{
    a == b
}

/// The characters of `s`, in order.
pub fn chars_of(s: &str) -> (chars: Vec<char>)
    ensures
        chars@ == s@,
{
    let mut chars: Vec<char> = Vec::new();
    for c in it: s.chars()
        invariant
            it.seq() == s@,
            chars@ == s@.take(it.index() as int),
    {
        chars.push(c);
    }
    chars
}

/// `left` followed by `right`.
pub fn join(left: &str, right: &str) -> (joined: String)
    ensures
        joined@ == left@ + right@,
{
    left.to_owned().concat(right)
}

/// The character that stands for a number below 16 in base 16.
pub open spec fn hex_char(nibble: int) -> char {
    if nibble == 0 {
        '0'
    } else if nibble == 1 {
        '1'
    } else if nibble == 2 {
        '2'
    } else if nibble == 3 {
        '3'
    } else if nibble == 4 {
        '4'
    } else if nibble == 5 {
        '5'
    } else if nibble == 6 {
        '6'
    } else if nibble == 7 {
        '7'
    } else if nibble == 8 {
        '8'
    } else if nibble == 9 {
        '9'
    } else if nibble == 10 {
        'a'
    } else if nibble == 11 {
        'b'
    } else if nibble == 12 {
        'c'
    } else if nibble == 13 {
        'd'
    } else if nibble == 14 {
        'e'
    } else {
        'f'
    }
}

/// The last `width` digits of `value` in base 16, most significant first.
pub open spec fn hex_digits(value: nat, width: nat) -> Seq<char>
    decreases width,
{
    if width == 0 {
        Seq::empty()
    } else {
        hex_digits(value / 16, (width - 1) as nat).push(hex_char((value % 16) as int))
    }
}

/// The digits of `value` in base 10, without leading zeros.
pub open spec fn decimal_digits(value: nat) -> Seq<char>
    decreases value,
{
    if value < 10 {
        seq![hex_char(value as int)]
    } else {
        decimal_digits(value / 10).push(hex_char((value % 10) as int))
    }
}

/// The text of one digit in base 16.
pub fn hex_digit(nibble: u64) -> (digit: &'static str)
    ensures
        digit@ == seq![hex_char(nibble as int)],
{
    proof {
        reveal_strlit("0");
        reveal_strlit("1");
        reveal_strlit("2");
        reveal_strlit("3");
        reveal_strlit("4");
        reveal_strlit("5");
        reveal_strlit("6");
        reveal_strlit("7");
        reveal_strlit("8");
        reveal_strlit("9");
        reveal_strlit("a");
        reveal_strlit("b");
        reveal_strlit("c");
        reveal_strlit("d");
        reveal_strlit("e");
        reveal_strlit("f");
    }
    let digit = if nibble == 0 {
        "0"
    } else if nibble == 1 {
        "1"
    } else if nibble == 2 {
        "2"
    } else if nibble == 3 {
        "3"
    } else if nibble == 4 {
        "4"
    } else if nibble == 5 {
        "5"
    } else if nibble == 6 {
        "6"
    } else if nibble == 7 {
        "7"
    } else if nibble == 8 {
        "8"
    } else if nibble == 9 {
        "9"
    } else if nibble == 10 {
        "a"
    } else if nibble == 11 {
        "b"
    } else if nibble == 12 {
        "c"
    } else if nibble == 13 {
        "d"
    } else if nibble == 14 {
        "e"
    } else {
        "f"
    };
    assert(digit@ =~= seq![hex_char(nibble as int)]);
    digit
}

/// `out` followed by the last `width` digits of `value` in base 16.
pub fn push_hex(out: String, value: u64, width: u32) -> (longer: String)
    ensures
        longer@ == out@ + hex_digits(value as nat, width as nat),
    decreases width,
{
    if width == 0 {
        assert(out@ + hex_digits(value as nat, 0) =~= out@);
        out
    } else {
        let upper = push_hex(out, value / 16, width - 1);
        let longer = upper.concat(hex_digit(value % 16));
        assert(longer@ =~= out@ + hex_digits(value as nat, width as nat));
        longer
    }
}

/// `out` followed by `value` in base 10.
pub fn push_decimal(out: String, value: u64) -> (longer: String)
    ensures
        longer@ == out@ + decimal_digits(value as nat),
    decreases value,
{
    if value < 10 {
        out.concat(hex_digit(value))
    } else {
        let upper = push_decimal(out, value / 10);
        let longer = upper.concat(hex_digit(value % 10));
        assert(longer@ =~= out@ + decimal_digits(value as nat));
        longer
    }
}

} // verus!
