//! The earlier console output of the second stage: numbers print "0" for
//! zero, and buffers are dumped in rows.
use vstd::prelude::*;
use vstd::string::StringSliceAdditionalSpecFns;
use crate::boot::stage2::print::{
    dec_digits, decimal_digits, hex_char, hex_digits, hexadecimal_digits, stack_output,
};

verus! {

/// Printing a message: its bytes.
pub fn print(message: &str) -> (r: Vec<u8>)
    ensures
        r@ == message.spec_bytes(),
{
    crate::boot::stage2::print::print(message)
}

/// Printing a number in decimal (below 10^9): "0" for zero, then the digit
/// stack's output.
pub fn print_numb(number: u32) -> (r: Vec<u8>)
    requires
        number < 1_000_000_000,
    ensures
        r@ == (if number == 0 {
            seq![48u8]
        } else {
            Seq::empty()
        }) + seq![0u8] + dec_digits(number as nat).reverse(),
{
    let mut out: Vec<u8> = Vec::new();
    if number == 0 {
        out.push(48);
    }
    let digits = decimal_digits(number);
    let mut rest = stack_output(&digits);
    out.append(&mut rest);
    out
}

/// Printing a number in hexadecimal: "0" for zero, then the digit stack's
/// output.
pub fn print_hex(number: u32) -> (r: Vec<u8>)
    ensures
        r@ == (if number == 0 {
            seq![48u8]
        } else {
            Seq::empty()
        }) + seq![0u8] + hex_digits(number as nat).reverse(),
{
    let mut out: Vec<u8> = Vec::new();
    if number == 0 {
        out.push(48);
    }
    let digits = hexadecimal_digits(number);
    let mut rest = stack_output(&digits);
    out.append(&mut rest);
    out
}

/// The dump of bytes `buf[i..]` when `col` bytes of the current row are out:
/// each byte as its low then its high hex digit and a space; after each 24
/// bytes a newline and a carriage return.
pub open spec fn hex_dump(buf: Seq<u8>, i: int, col: int) -> Seq<u8>
    decreases buf.len() - i,
{
    if i < 0 || i >= buf.len() {
        Seq::empty()
    } else {
        let b = buf[i];
        let cell = seq![hex_char((b % 16) as nat), hex_char((b / 16) as nat), 32u8];
        if col + 1 == 24 {
            cell + seq![10u8, 13u8] + hex_dump(buf, i + 1, 0)
        } else {
            cell + hex_dump(buf, i + 1, col + 1)
        }
    }
}

/// The character of hexadecimal digit `value` (below 16): '0' to '9', then
/// 'A' to 'F'.
fn to_hex(value: u8) -> (r: u8)
    requires
        value < 16,
    ensures
        r == hex_char(value as nat),
{
    if value > 9 {
        65 + value - 10
    } else {
        48 + value
    }
}

/// Dumps a buffer in hexadecimal, 24 bytes a row.
pub fn print_hex_buf(buf: &[u8]) -> (r: Vec<u8>)
    ensures
        r@ == hex_dump(buf@, 0, 0),
{
    let mut out: Vec<u8> = Vec::new();
    let mut col: usize = 0;
    let mut i: usize = 0;
    while i < buf.len()
        invariant
            i <= buf@.len(),
            col < 24,
            hex_dump(buf@, 0, 0) == out@ + hex_dump(buf@, i as int, col as int),
        decreases buf@.len() - i,
    {
        let b = buf[i];
        let lo = b & 0x0F;
        let hi = (b & 0xF0) >> 4;
        assert(lo == b % 16 && hi == b / 16) by (bit_vector)
            requires
                lo == b & 0x0F,
                hi == (b & 0xF0) >> 4,
        ;
        let lo_c = to_hex(lo);
        let hi_c = to_hex(hi);
        let ghost before = out@;
        out.push(lo_c);
        out.push(hi_c);
        out.push(32);
        col = col + 1;
        if col == 24 {
            out.push(10);
            out.push(13);
            col = 0;
        }
        proof {
            assert(before + hex_dump(buf@, i as int, (if col == 0 { 23int } else { col - 1 })) =~= out@
                + hex_dump(buf@, i + 1, col as int));
        }
        i = i + 1;
    }
    proof {
        assert(out@ + hex_dump(buf@, i as int, col as int) =~= out@);
    }
    out
}

/// The output of bytes `buf[i..]` when `col` bytes of the current row are
/// out: each byte itself; after each 32 a newline and a carriage return.
pub open spec fn char_dump(buf: Seq<u8>, i: int, col: int) -> Seq<u8>
    decreases buf.len() - i,
{
    if i < 0 || i >= buf.len() {
        Seq::empty()
    } else if col + 1 == 32 {
        seq![buf[i], 10u8, 13u8] + char_dump(buf, i + 1, 0)
    } else {
        seq![buf[i]] + char_dump(buf, i + 1, col + 1)
    }
}

/// Prints a buffer's bytes, 32 a row.
pub fn printcharbuf(buf: &[u8]) -> (r: Vec<u8>)
    ensures
        r@ == char_dump(buf@, 0, 0),
{
    let mut out: Vec<u8> = Vec::new();
    let mut col: usize = 0;
    let mut i: usize = 0;
    while i < buf.len()
        invariant
            i <= buf@.len(),
            col < 32,
            char_dump(buf@, 0, 0) == out@ + char_dump(buf@, i as int, col as int),
        decreases buf@.len() - i,
    {
        let ghost before = out@;
        out.push(buf[i]);
        col = col + 1;
        if col == 32 {
            out.push(10);
            out.push(13);
            col = 0;
        }
        proof {
            assert(before + char_dump(buf@, i as int, (if col == 0 { 31int } else { col - 1 })) =~= out@
                + char_dump(buf@, i + 1, col as int));
        }
        i = i + 1;
    }
    proof {
        assert(out@ + char_dump(buf@, i as int, col as int) =~= out@);
    }
    out
}

/// Printing a line: its bytes, then a newline and a carriage return.
pub fn println(message: &str) -> (r: Vec<u8>)
    ensures
        r@ == message.spec_bytes() + seq![10u8, 13u8],
{
    crate::boot::stage2::print::println(message)
}

} // verus!
