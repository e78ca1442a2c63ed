//! The stream cursor: a single advancing offset into the byte buffer, with
//! bounds-checked reads of sign-extended 8-bit and little-endian 16-bit
//! values.

use vstd::prelude::*;

use crate::opcode::DecodeError;

verus! {

/// A byte sign-extended to an integer: values 128..=255 read as negative.
pub open spec fn sign_ext8(b: u8) -> int {
    if b < 128 {
        b as int
    } else {
        b as int - 256
    }
}

/// The unsigned 16-bit value carried little-endian by a low and a high byte.
pub open spec fn uword16(lo: u8, hi: u8) -> int {
    lo as int + 256 * (hi as int)
}

/// The signed 16-bit value carried little-endian by a low and a high byte.
pub open spec fn word16(lo: u8, hi: u8) -> int {
    if uword16(lo, hi) < 32768 {
        uword16(lo, hi)
    } else {
        uword16(lo, hi) - 65536
    }
}

/// Sign extension keeps the byte's value modulo 256 and lands in the range
/// of a signed byte.
pub proof fn lemma_sign_ext8_signed(b: u8)
    ensures
        -128 <= sign_ext8(b) <= 127,
        (sign_ext8(b) + 256) % 256 == b as int,
{
}

/// The two-byte read is the signed little-endian interpretation: it lands in
/// the range of a signed word and agrees with lo + 256 * hi modulo 65536.
pub proof fn lemma_word16_signed(lo: u8, hi: u8)
    ensures
        -32768 <= word16(lo, hi) <= 32767,
        (word16(lo, hi) + 65536) % 65536 == lo as int + 256 * (hi as int),
{
}

/// Moves the cursor to the next byte. The move always happens; the result
/// says whether the new position still lies inside the buffer, so a caller
/// that goes on to read `code[*index]` must see `Ok` first.
pub fn increment_index(code: &Vec<u8>, index: &mut usize) -> (r: Result<(), DecodeError>)
    requires
        *old(index) < code@.len(),
    ensures
        *final(index) == *old(index) + 1,
        r is Ok <==> *old(index) + 1 < code@.len(),
        r is Err ==> r == Err::<(), DecodeError>(DecodeError::TruncatedInstruction),
{
    let len = code.len();
    *index += 1;
    if *index == len {
        return Err(DecodeError::TruncatedInstruction);
    }
    Ok(())
}

/// Reads the 1- or 2-byte value that follows the cursor position: with
/// `w_bit` a little-endian signed word from the next two bytes, without it a
/// sign-extended byte. The cursor ends on the last byte consumed; a read
/// past the end of the buffer fails instead, with the cursor at the buffer's
/// end.
pub fn read_bytes(code: &Vec<u8>, index: &mut usize, w_bit: bool) -> (r: Result<
    i16,
    DecodeError,
>)
    requires
        *old(index) < code@.len(),
    ensures
        ({
            let p = *old(index) as int;
            let n: int = if w_bit {
                2
            } else {
                1
            };
            &&& p + n < code@.len() ==> {
                &&& r matches Ok(v)
                &&& v as int == if w_bit {
                    word16(code@[p + 1], code@[p + 2])
                } else {
                    sign_ext8(code@[p + 1])
                }
                &&& *final(index) == p + n
            }
            &&& p + n >= code@.len() ==> {
                &&& r == Err::<i16, DecodeError>(DecodeError::TruncatedInstruction)
                &&& *final(index) == code@.len()
            }
        }),
{
    increment_index(code, index)?;
    if w_bit {
        let low_byte = code[*index];
        increment_index(code, index)?;
        let high_byte = code[*index];
        let unsigned: i32 = (low_byte as i32) + 256 * (high_byte as i32);
        let signed: i32 = if unsigned >= 32768 {
            unsigned - 65536
        } else {
            unsigned
        };
        return Ok(signed as i16);
    }
    let b = code[*index];
    if b < 128 {
        Ok(b as i16)
    } else {
        Ok((b as i16) - 256)
    }
}

/// Reads the two bytes that follow the cursor position as an unsigned
/// little-endian 16-bit absolute address. The cursor ends on the last byte
/// consumed; a read past the end of the buffer fails instead, with the
/// cursor at the buffer's end.
pub fn read_address(code: &Vec<u8>, index: &mut usize) -> (r: Result<u16, DecodeError>)
    requires
        *old(index) < code@.len(),
    ensures
        ({
            let p = *old(index) as int;
            &&& p + 2 < code@.len() ==> {
                &&& r matches Ok(a)
                &&& a as int == uword16(code@[p + 1], code@[p + 2])
                &&& *final(index) == p + 2
            }
            &&& p + 2 >= code@.len() ==> {
                &&& r == Err::<u16, DecodeError>(DecodeError::TruncatedInstruction)
                &&& *final(index) == code@.len()
            }
        }),
{
    increment_index(code, index)?;
    let low_byte = code[*index];
    increment_index(code, index)?;
    let high_byte = code[*index];
    Ok((low_byte as u16) + 256 * (high_byte as u16))
}

} // verus!
