//! Console output of the second stage: the characters each print sends to
//! the BIOS teletype, in order.
use vstd::prelude::*;
use vstd::string::StringSliceAdditionalSpecFns;

verus! {

/// The decimal digits of `n`, least significant first (none for 0).
pub open spec fn dec_digits(n: nat) -> Seq<u8>
    decreases n,
{
    if n == 0 {
        Seq::empty()
    } else {
        seq![(48 + n % 10) as u8] + dec_digits(n / 10)
    }
}

/// The character of hexadecimal digit `v` (upper case).
pub open spec fn hex_char(v: nat) -> u8 {
    if v > 9 {
        (65 + v - 10) as u8
    } else {
        (48 + v) as u8
    }
}

/// The hexadecimal digits of `n`, least significant first (none for 0).
pub open spec fn hex_digits(n: nat) -> Seq<u8>
    decreases n,
{
    if n == 0 {
        Seq::empty()
    } else {
        seq![hex_char(n % 16)] + hex_digits(n / 16)
    }
}

/// The decimal digits of `number`, least significant first.
pub fn decimal_digits(number: u32) -> (r: Vec<u8>)
    ensures
        r@ == dec_digits(number as nat),
{
    let mut digits: Vec<u8> = Vec::new();
    let mut n = number;
    while n > 0
        invariant
            dec_digits(number as nat) == digits@ + dec_digits(n as nat),
        decreases n,
    {
        let ghost before = digits@;
        digits.push(48 + (n % 10) as u8);
        proof {
            assert(before + dec_digits(n as nat) =~= digits@ + dec_digits((n / 10) as nat));
        }
        n = n / 10;
    }
    proof {
        assert(digits@ + dec_digits(0) =~= digits@);
    }
    digits
}

/// The hexadecimal digits of `number`, least significant first.
pub fn hexadecimal_digits(number: u32) -> (r: Vec<u8>)
    ensures
        r@ == hex_digits(number as nat),
{
    let mut digits: Vec<u8> = Vec::new();
    let mut n = number;
    while n > 0
        invariant
            hex_digits(number as nat) == digits@ + hex_digits(n as nat),
        decreases n,
    {
        let ghost before = digits@;
        let adding = (n % 16) as u8;
        let c = if adding > 9 {
            65 + adding - 10
        } else {
            48 + adding
        };
        digits.push(c);
        proof {
            assert(before + hex_digits(n as nat) =~= digits@ + hex_digits((n / 16) as nat));
        }
        n = n / 16;
    }
    proof {
        assert(digits@ + hex_digits(0) =~= digits@);
    }
    digits
}

/// What printing a digit stack sends: the unwritten slot above the digits
/// (a zero byte), then the digits from the most significant down.
pub fn stack_output(digits: &Vec<u8>) -> (r: Vec<u8>)
    ensures
        r@ == seq![0u8] + digits@.reverse(),
{
    let mut out: Vec<u8> = Vec::new();
    out.push(0);
    let mut i = digits.len();
    while i > 0
        invariant
            i <= digits@.len(),
            out@ == seq![0u8] + digits@.subrange(i as int, digits@.len() as int).reverse(),
        decreases i,
    {
        i = i - 1;
        out.push(digits[i]);
        proof {
            assert(digits@.subrange(i as int, digits@.len() as int).reverse() =~= digits@.subrange(
                i + 1,
                digits@.len() as int,
            ).reverse().push(digits@[i as int]));
        }
    }
    proof {
        assert(digits@.subrange(0, digits@.len() as int) =~= digits@);
    }
    out
}

/// Printing a message: its bytes.
pub fn print(message: &str) -> (r: Vec<u8>)
    ensures
        r@ == message.spec_bytes(),
{
    let bytes = message.as_bytes();
    let mut out: Vec<u8> = Vec::new();
    let mut i: usize = 0;
    while i < bytes.len()
        invariant
            i <= bytes@.len(),
            out@ == bytes@.take(i as int),
        decreases bytes@.len() - i,
    {
        out.push(bytes[i]);
        proof {
            assert(bytes@.take(i + 1) =~= bytes@.take(i as int).push(bytes@[i as int]));
        }
        i = i + 1;
    }
    proof {
        assert(bytes@.take(i as int) =~= bytes@);
    }
    out
}

/// Printing a number in decimal (below 10^9, as the 10-slot digit stack
/// allows): the stack's output.
pub fn printnumb(number: u32) -> (r: Vec<u8>)
    requires
        number < 1_000_000_000,
    ensures
        r@ == seq![0u8] + dec_digits(number as nat).reverse(),
{
    let digits = decimal_digits(number);
    stack_output(&digits)
}

/// Printing a number in hexadecimal: the stack's output.
pub fn printhex(number: u32) -> (r: Vec<u8>)
    ensures
        r@ == seq![0u8] + hex_digits(number as nat).reverse(),
{
    let digits = hexadecimal_digits(number);
    stack_output(&digits)
}

/// Printing a line: its bytes, then a newline and a carriage return.
pub fn println(message: &str) -> (r: Vec<u8>)
    ensures
        r@ == message.spec_bytes() + seq![10u8, 13u8],
{
    let mut out = print(message);
    out.push(10);
    out.push(13);
    out
}

} // verus!
