//! The emulated PL011 serial console.
//!
//! The guest sees a data register that takes one byte at a time and a flag
//! register that always reads as ready. What the guest writes is handed to
//! the caller's output as characters.

use vstd::prelude::*;
use vstd::string::StrSliceExecFns;

verus! {

/// The address of the console's register window.
pub const PL011: u64 = 0x0900_0000;

/// The size of the console's register window.
pub const PL011_SIZE: u64 = 0x1000;

/// The offset of the data register.
pub const UART_DR: usize = 0x000;

/// The offset of the flag register.
pub const UART_FR: usize = 0x018;

/// The register file of a PL011, one field per register, in the order of
/// their offsets.
pub struct PL011Reg {
    dr: u32,
    rsr: u32,
    reserved1: [u8; 0x10],
    fr: u32,
    reserved2: u32,
    ilpr: u32,
    ibrd: u32,
    fbrd: u32,
    lcr_h: u32,
    cr: u32,
    ifls: u32,
    imsc: u32,
    ris: u32,
    mis: u32,
    icr: u32,
    dmacr: u32,
    reserved3: [u8; 0xf60],
    periphid0: u32,
    periphid1: u32,
    periphid2: u32,
    periphid3: u32,
    pcellid0: u32,
    pcellid1: u32,
    pcellid2: u32,
    pcellid3: u32,
}

/// What the console puts out for a newline: the newline and a banner.
pub open spec fn newline_text() -> Seq<char> {
    "\nLet's access https://amazon.co.jp/ !!"@
}

/// The character that a written value stands for: its low byte, as the
/// code point of that number.
pub open spec fn character_of(value: u64) -> char {
    ((value % 256) as u8) as char
}

/// What the console puts out when `value` is written to the data register.
pub open spec fn emitted(value: u64) -> Seq<char> {
    if value % 256 == 0x0A {
        newline_text()
    } else {
        seq![character_of(value)]
    }
}

/// Reads a register. Only the flag register can be read: it is always 0,
/// which tells the guest that the console is ready.
pub fn mmio_read(offset: usize, _access_width: u64) -> (result: Result<u64, ()>)
    ensures
        offset == UART_FR ==> result == Ok::<u64, ()>(0),
        offset != UART_FR ==> result is Err,
{
    if offset == UART_FR {
        Ok(0)
    } else {
        Err(())
    }
}

/// Writes a register. Only the data register can be written: the low byte
/// of `value` goes to `console` as a character, and a newline goes out
/// followed by a banner.
pub fn mmio_write(offset: usize, _access_width: u64, value: u64, console: &mut Vec<char>) -> (result:
    Result<(), ()>)
    ensures
        offset == UART_DR ==> result is Ok && final(console)@ == old(console)@ + emitted(value),
        offset != UART_DR ==> result is Err && final(console)@ == old(console)@,
{
    if offset == UART_DR {
        let byte: u8 = (value & 0xFF) as u8;
        assert(value & 0xFF == value % 256) by (bit_vector);
        if byte == 0x0A {
            let text = "\nLet's access https://amazon.co.jp/ !!";
            let length = text.unicode_len();
            let mut sent: usize = 0;
            while sent < length
                invariant
                    sent <= length,
                    length == text@.len(),
                    console@ == old(console)@ + text@.subrange(0, sent as int),
                decreases length - sent,
            {
                console.push(text.get_char(sent));
                sent += 1;
                assert(text@.subrange(0, sent as int) == text@.subrange(0, sent - 1).push(
                    text@[sent - 1],
                ));
            }
            assert(text@.subrange(0, length as int) == text@);
        } else {
            console.push(byte as char);
            assert(old(console)@.push(byte as char) == old(console)@ + seq![byte as char]);
        }
        Ok(())
    } else {
        Err(())
    }
}

} // verus!
