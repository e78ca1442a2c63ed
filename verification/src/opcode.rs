//! Classification of the lead byte of an instruction into one of the seven
//! recognized MOV encoding forms.

use vstd::prelude::*;

verus! {

/// The seven MOV encoding forms the decoder recognizes.
#[derive(Clone, Copy, Debug, PartialEq, Eq, Structural)]
pub enum Mov {
    RegMemToFromReg,
    ImmToRegMem,
    ImmToReg,
    MemToAcc,
    AccToMem,
    RegMemToSeg,
    SegToRegMem,
}

/// Why a decode stopped with nothing to show for the current instruction.
#[derive(Clone, Copy, Debug, PartialEq, Eq, Structural)]
pub enum DecodeError {
    /// The lead byte matches none of the recognized MOV bit patterns.
    UnsupportedOpcode,
    /// A field, displacement, immediate or address read would cross the end
    /// of the byte stream.
    TruncatedInstruction,
}

/// The classification of a lead byte: each form's (mask, expected) pair is
/// tried in fixed order, most specific masks first; `None` when no pattern
/// matches. The patterns are disjoint for every byte, so the order never
/// changes the answer, but it is the documented priority order all the same.
pub open spec fn spec_classify(byte: u8) -> Option<Mov> {
    if byte & 0b11111100 == 0b10001000 {
        Some(Mov::RegMemToFromReg)
    } else if byte & 0b11111110 == 0b11000110 {
        Some(Mov::ImmToRegMem)
    } else if byte & 0b11110000 == 0b10110000 {
        Some(Mov::ImmToReg)
    } else if byte & 0b11111110 == 0b10100000 {
        Some(Mov::MemToAcc)
    } else if byte & 0b11111110 == 0b10100010 {
        Some(Mov::AccToMem)
    } else if byte == 0b10001110 {
        Some(Mov::RegMemToSeg)
    } else if byte == 0b10001100 {
        Some(Mov::SegToRegMem)
    } else {
        None
    }
}

pub fn opcode_is_regmem_tofrom_reg(byte: u8) -> (r: bool)
    ensures
        r == (byte & 0b11111100 == 0b10001000),
{
    0b10001000 == (byte & 0b11111100)
}

pub fn opcode_is_imm_to_regmem(byte: u8) -> (r: bool)
    ensures
        r == (byte & 0b11111110 == 0b11000110),
{
    0b11000110 == (byte & 0b11111110)
}

pub fn opcode_is_imm_to_reg(byte: u8) -> (r: bool)
    ensures
        r == (byte & 0b11110000 == 0b10110000),
{
    0b10110000 == (byte & 0b11110000)
}

pub fn opcode_is_mem_to_acc(byte: u8) -> (r: bool)
    ensures
        r == (byte & 0b11111110 == 0b10100000),
{
    0b10100000 == (byte & 0b11111110)
}

pub fn opcode_is_acc_to_mem(byte: u8) -> (r: bool)
    ensures
        r == (byte & 0b11111110 == 0b10100010),
{
    0b10100010 == (byte & 0b11111110)
}

pub fn opcode_is_regmem_to_seg(byte: u8) -> (r: bool)
    ensures
        r == (byte == 0b10001110),
{
    0b10001110 == byte
}

pub fn opcode_is_seg_to_regmem(byte: u8) -> (r: bool)
    ensures
        r == (byte == 0b10001100),
{
    0b10001100 == byte
}

/// Maps a lead byte to its MOV form, or reports that no recognized pattern
/// matches: the result is exactly what `spec_classify` says for the byte.
pub fn identify_opcode(byte: u8) -> (r: Result<Mov, DecodeError>)
    ensures
        match spec_classify(byte) {
            Some(v) => r == Ok::<Mov, DecodeError>(v),
            None => r == Err::<Mov, DecodeError>(DecodeError::UnsupportedOpcode),
        },
{
    if opcode_is_regmem_tofrom_reg(byte) {
        return Ok(Mov::RegMemToFromReg);
    }
    if opcode_is_imm_to_regmem(byte) {
        return Ok(Mov::ImmToRegMem);
    }
    if opcode_is_imm_to_reg(byte) {
        return Ok(Mov::ImmToReg);
    }
    if opcode_is_mem_to_acc(byte) {
        return Ok(Mov::MemToAcc);
    }
    if opcode_is_acc_to_mem(byte) {
        return Ok(Mov::AccToMem);
    }
    if opcode_is_regmem_to_seg(byte) {
        return Ok(Mov::RegMemToSeg);
    }
    if opcode_is_seg_to_regmem(byte) {
        return Ok(Mov::SegToRegMem);
    }
    Err(DecodeError::UnsupportedOpcode)
}

} // verus!
