//! Per-form instruction decoding and the decode loop: each recognized MOV
//! form has a routine that consumes its bytes through the cursor and renders
//! one assembly line, and `decode_stream` runs them over a whole buffer.

use vstd::prelude::*;

use crate::opcode::DecodeError;
use crate::opcode::Mov;
use crate::opcode::identify_opcode;
use crate::opcode::spec_classify;
use crate::operand::data_text_spec;
use crate::operand::disp_size;
use crate::operand::get_reg_name;
use crate::operand::operand_text_spec;
use crate::operand::read_data;
use crate::operand::read_operand;
use crate::operand::reg_name_spec;
use crate::stream::increment_index;
use crate::stream::read_address;
use crate::stream::read_bytes;
use crate::stream::sign_ext8;
use crate::stream::uword16;
use crate::stream::word16;
use crate::text::dec_str;
use crate::text::int_str;
use crate::text::signed_decimal;
use crate::text::unsigned_decimal;

verus! {

/// The mod field of a ModRM byte: its top two bits.
pub open spec fn mod_of(m: u8) -> u8 {
    ((m & 0b11000000) >> 6) & 0b00000011
}

/// The reg field of a ModRM byte: its middle three bits.
pub open spec fn regf_of(m: u8) -> u8 {
    (m & 0b00111000) >> 3
}

/// The rm field of a ModRM byte: its low three bits.
pub open spec fn rm_of(m: u8) -> u8 {
    m & 0b00000111
}

/// The extracted ModRM fields stay inside their widths.
pub proof fn lemma_field_bounds(m: u8)
    ensures
        mod_of(m) < 4,
        regf_of(m) < 8,
        rm_of(m) < 8,
{
    assert(((m & 0b11000000) >> 6) & 0b00000011 < 4) by (bit_vector);
    assert((m & 0b00111000) >> 3 < 8) by (bit_vector);
    assert(m & 0b00000111 < 8) by (bit_vector);
}

/// How many data bytes an immediate occupies for a word-size flag.
pub open spec fn data_size(w_bit: bool) -> int {
    if w_bit {
        2
    } else {
        1
    }
}

/// Total byte count of a register/memory-to/from-register instruction at
/// position `i`: opcode, ModRM, and the displacement the ModRM calls for.
pub open spec fn regmem_size(code: Seq<u8>, i: int) -> int {
    2 + disp_size(mod_of(code[i + 1]), rm_of(code[i + 1]))
}

/// The assembly line of a register/memory-to/from-register instruction at
/// position `i`, assuming its bytes are all present: the d bit decides which
/// operand is written first.
pub open spec fn regmem_line(code: Seq<u8>, i: int) -> Seq<char> {
    let b = code[i];
    let m = code[i + 1];
    let w_bit = b & 1 != 0;
    let reg = reg_name_spec(regf_of(m), w_bit);
    let regmem = operand_text_spec(code, i + 1, mod_of(m), rm_of(m), w_bit);
    if b & 0b00000010 != 0 {
        "mov "@ + reg + ", "@ + regmem
    } else {
        "mov "@ + regmem + ", "@ + reg
    }
}

/// Total byte count of an immediate-to-register/memory instruction at
/// position `i`: opcode, ModRM, displacement, and the immediate's data bytes.
pub open spec fn imm_regmem_size(code: Seq<u8>, i: int) -> int {
    2 + disp_size(mod_of(code[i + 1]), rm_of(code[i + 1])) + data_size(code[i] & 1 != 0)
}

/// The assembly line of an immediate-to-register/memory instruction at
/// position `i`: the resolved destination, then the immediate with its width
/// tag.
pub open spec fn imm_regmem_line(code: Seq<u8>, i: int) -> Seq<char> {
    let b = code[i];
    let m = code[i + 1];
    let w_bit = b & 1 != 0;
    let destination = operand_text_spec(code, i + 1, mod_of(m), rm_of(m), w_bit);
    let dpos = i + 1 + disp_size(mod_of(m), rm_of(m));
    let value = if w_bit {
        word16(code[dpos + 1], code[dpos + 2])
    } else {
        sign_ext8(code[dpos + 1])
    };
    "mov "@ + destination + ", "@ + data_text_spec(w_bit, value)
}

/// Total byte count of an immediate-to-register instruction at position `i`:
/// opcode and the immediate's data bytes.
pub open spec fn imm_reg_size(code: Seq<u8>, i: int) -> int {
    1 + data_size(code[i] & 0b00001000 != 0)
}

/// The assembly line of an immediate-to-register instruction at position
/// `i`: the register named by the opcode's low bits, then the plain
/// immediate with no width tag.
pub open spec fn imm_reg_line(code: Seq<u8>, i: int) -> Seq<char> {
    let b = code[i];
    let w_bit = b & 0b00001000 != 0;
    let value = if w_bit {
        word16(code[i + 1], code[i + 2])
    } else {
        sign_ext8(code[i + 1])
    };
    "mov "@ + reg_name_spec(b & 0b00000111, w_bit) + ", "@ + int_str(value)
}

/// The assembly line of a memory-to-accumulator instruction at position `i`:
/// the absolute address is always read as a full unsigned word and the
/// accumulator is always rendered by its 16-bit name.
pub open spec fn mem_acc_line(code: Seq<u8>, i: int) -> Seq<char> {
    "mov ax, ["@ + dec_str(uword16(code[i + 1], code[i + 2]) as nat) + "]"@
}

/// The assembly line of an accumulator-to-memory instruction at position
/// `i`, symmetric to the memory-to-accumulator form.
pub open spec fn acc_mem_line(code: Seq<u8>, i: int) -> Seq<char> {
    "mov ["@ + dec_str(uword16(code[i + 1], code[i + 2]) as nat) + "], ax"@
}

/// Total byte count of the instruction at position `i`, by its lead byte's
/// classification (1 where no decodable form matches).
pub open spec fn spec_instr_size(code: Seq<u8>, i: int) -> int {
    match spec_classify(code[i]) {
        Some(Mov::RegMemToFromReg) => regmem_size(code, i),
        Some(Mov::ImmToRegMem) => imm_regmem_size(code, i),
        Some(Mov::ImmToReg) => imm_reg_size(code, i),
        Some(Mov::MemToAcc) => 3,
        Some(Mov::AccToMem) => 3,
        _ => 1,
    }
}

/// The assembly line of the instruction at position `i`, by its lead byte's
/// classification (empty where no decodable form matches).
pub open spec fn spec_line(code: Seq<u8>, i: int) -> Seq<char> {
    match spec_classify(code[i]) {
        Some(Mov::RegMemToFromReg) => regmem_line(code, i),
        Some(Mov::ImmToRegMem) => imm_regmem_line(code, i),
        Some(Mov::ImmToReg) => imm_reg_line(code, i),
        Some(Mov::MemToAcc) => mem_acc_line(code, i),
        Some(Mov::AccToMem) => acc_mem_line(code, i),
        _ => Seq::<char>::empty(),
    }
}

/// Why the decode loop came to rest.
#[derive(Clone, Copy, Debug, PartialEq, Eq, Structural)]
pub enum Termination {
    /// Every byte of the stream was decoded.
    Exhausted,
    /// A segment-register form was recognized: in scope to detect, out of
    /// scope to decode, so the loop stops cleanly before it.
    UnhandledVariant(Mov),
    /// The current instruction could not be decoded; nothing was emitted for
    /// it.
    Failed(DecodeError),
}

/// What a full decode of a byte stream yields, from the start or from any
/// position `i`: the rendered lines of the instructions decoded in order,
/// and why the loop stopped.
pub open spec fn spec_run(code: Seq<u8>, i: int) -> (Seq<Seq<char>>, Termination)
    decreases code.len() - i,
{
    if i < 0 || i >= code.len() {
        (Seq::<Seq<char>>::empty(), Termination::Exhausted)
    } else {
        match spec_classify(code[i]) {
            None => (
                Seq::<Seq<char>>::empty(),
                Termination::Failed(DecodeError::UnsupportedOpcode),
            ),
            Some(Mov::RegMemToSeg) => (
                Seq::<Seq<char>>::empty(),
                Termination::UnhandledVariant(Mov::RegMemToSeg),
            ),
            Some(Mov::SegToRegMem) => (
                Seq::<Seq<char>>::empty(),
                Termination::UnhandledVariant(Mov::SegToRegMem),
            ),
            Some(v) => {
                if i + spec_instr_size(code, i) > code.len() {
                    (
                        Seq::<Seq<char>>::empty(),
                        Termination::Failed(DecodeError::TruncatedInstruction),
                    )
                } else {
                    let rest = spec_run(code, i + spec_instr_size(code, i));
                    (seq![spec_line(code, i)] + rest.0, rest.1)
                }
            },
        }
    }
}

/// Decodes a register/memory-to/from-register instruction whose opcode byte
/// sits at the cursor, leaving the cursor on the instruction's last byte.
pub fn decode_regmem_tofrom_reg(code: &Vec<u8>, index: &mut usize) -> (r: Result<
    String,
    DecodeError,
>)
    requires
        *old(index) < code@.len(),
    ensures
        ({
            let i = *old(index) as int;
            let size = regmem_size(code@, i);
            &&& i + size <= code@.len() ==> {
                &&& r matches Ok(line)
                &&& line@ == regmem_line(code@, i)
                &&& *final(index) as int == i + size - 1
            }
            &&& i + size > code@.len() ==> {
                &&& r == Err::<String, DecodeError>(DecodeError::TruncatedInstruction)
                &&& *final(index) == code@.len()
            }
        }),
{
    let d_bit: bool = (code[*index] & 0b00000010) != 0;
    let w_bit: bool = (code[*index] & 1) != 0;

    increment_index(code, index)?;
    let modrm = code[*index];
    let mod_field = ((modrm & 0b11000000) >> 6) & 0b00000011;
    let reg_field = (modrm & 0b00111000) >> 3;
    let rm_field = modrm & 0b00000111;
    proof {
        lemma_field_bounds(modrm);
    }
    let reg_name = get_reg_name(reg_field, w_bit);

    let regmem = match read_operand(code, index, mod_field, rm_field, w_bit) {
        Ok(s) => s,
        Err(e) => {
            return Err(e);
        },
    };
    let mut line = String::from_str("mov ");
    if d_bit {
        line.append(reg_name);
        line.append(", ");
        line.append(regmem.as_str());
    } else {
        line.append(regmem.as_str());
        line.append(", ");
        line.append(reg_name);
    }
    proof {
        assert(line@ =~= regmem_line(code@, *old(index) as int));
    }
    Ok(line)
}

/// Decodes an immediate-to-register/memory instruction whose opcode byte
/// sits at the cursor, leaving the cursor on the instruction's last byte.
pub fn decode_imm_to_regmem(code: &Vec<u8>, index: &mut usize) -> (r: Result<
    String,
    DecodeError,
>)
    requires
        *old(index) < code@.len(),
    ensures
        ({
            let i = *old(index) as int;
            let size = imm_regmem_size(code@, i);
            &&& i + size <= code@.len() ==> {
                &&& r matches Ok(line)
                &&& line@ == imm_regmem_line(code@, i)
                &&& *final(index) as int == i + size - 1
            }
            &&& i + size > code@.len() ==> {
                &&& r == Err::<String, DecodeError>(DecodeError::TruncatedInstruction)
                &&& *final(index) == code@.len()
            }
        }),
{
    let w_bit = (code[*index] & 1) != 0;

    increment_index(code, index)?;
    let modrm = code[*index];
    let mod_field = ((modrm & 0b11000000) >> 6) & 0b00000011;
    let rm_field = modrm & 0b00000111;
    proof {
        lemma_field_bounds(modrm);
    }

    let destination = match read_operand(code, index, mod_field, rm_field, w_bit) {
        Ok(s) => s,
        Err(e) => {
            return Err(e);
        },
    };
    let data = match read_data(code, index, w_bit) {
        Ok(s) => s,
        Err(e) => {
            return Err(e);
        },
    };

    let mut line = String::from_str("mov ");
    line.append(destination.as_str());
    line.append(", ");
    line.append(data.as_str());
    proof {
        assert(line@ =~= imm_regmem_line(code@, *old(index) as int));
    }
    Ok(line)
}

/// Decodes an immediate-to-register instruction whose opcode byte sits at
/// the cursor, leaving the cursor on the instruction's last byte. The
/// immediate is rendered plain, with no width tag: the destination register
/// already fixes the width.
pub fn decode_imm_to_reg(code: &Vec<u8>, index: &mut usize) -> (r: Result<String, DecodeError>)
    requires
        *old(index) < code@.len(),
    ensures
        ({
            let i = *old(index) as int;
            let size = imm_reg_size(code@, i);
            &&& i + size <= code@.len() ==> {
                &&& r matches Ok(line)
                &&& line@ == imm_reg_line(code@, i)
                &&& *final(index) as int == i + size - 1
            }
            &&& i + size > code@.len() ==> {
                &&& r == Err::<String, DecodeError>(DecodeError::TruncatedInstruction)
                &&& *final(index) == code@.len()
            }
        }),
{
    let opcode = code[*index];
    let w_bit: bool = (opcode & 0b00001000) != 0;
    let reg_field: u8 = opcode & 0b00000111;
    proof {
        lemma_field_bounds(opcode);
    }
    let reg_name = get_reg_name(reg_field, w_bit);

    let imm_val = match read_bytes(code, index, w_bit) {
        Ok(v) => v,
        Err(e) => {
            return Err(e);
        },
    };
    let mut line = String::from_str("mov ");
    line.append(reg_name);
    line.append(", ");
    let digits = signed_decimal(imm_val);
    line.append(digits.as_str());
    proof {
        assert(line@ =~= imm_reg_line(code@, *old(index) as int));
    }
    Ok(line)
}

/// Decodes a memory-to-accumulator instruction whose opcode byte sits at the
/// cursor, leaving the cursor on the instruction's last byte. The absolute
/// address is always a full unsigned word and the accumulator is always
/// "ax".
pub fn decode_mem_to_acc(code: &Vec<u8>, index: &mut usize) -> (r: Result<String, DecodeError>)
    requires
        *old(index) < code@.len(),
    ensures
        ({
            let i = *old(index) as int;
            &&& i + 3 <= code@.len() ==> {
                &&& r matches Ok(line)
                &&& line@ == mem_acc_line(code@, i)
                &&& *final(index) as int == i + 2
            }
            &&& i + 3 > code@.len() ==> {
                &&& r == Err::<String, DecodeError>(DecodeError::TruncatedInstruction)
                &&& *final(index) == code@.len()
            }
        }),
{
    let address = match read_address(code, index) {
        Ok(v) => v,
        Err(e) => {
            return Err(e);
        },
    };
    let mut line = String::from_str("mov ax, [");
    let digits = unsigned_decimal(address);
    line.append(digits.as_str());
    line.append("]");
    proof {
        assert(line@ =~= mem_acc_line(code@, *old(index) as int));
    }
    Ok(line)
}

/// Decodes an accumulator-to-memory instruction whose opcode byte sits at
/// the cursor, leaving the cursor on the instruction's last byte.
pub fn decode_acc_to_mem(code: &Vec<u8>, index: &mut usize) -> (r: Result<String, DecodeError>)
    requires
        *old(index) < code@.len(),
    ensures
        ({
            let i = *old(index) as int;
            &&& i + 3 <= code@.len() ==> {
                &&& r matches Ok(line)
                &&& line@ == acc_mem_line(code@, i)
                &&& *final(index) as int == i + 2
            }
            &&& i + 3 > code@.len() ==> {
                &&& r == Err::<String, DecodeError>(DecodeError::TruncatedInstruction)
                &&& *final(index) == code@.len()
            }
        }),
{
    let address = match read_address(code, index) {
        Ok(v) => v,
        Err(e) => {
            return Err(e);
        },
    };
    let mut line = String::from_str("mov [");
    let digits = unsigned_decimal(address);
    line.append(digits.as_str());
    line.append("], ax");
    proof {
        assert(line@ =~= acc_mem_line(code@, *old(index) as int));
    }
    Ok(line)
}

/// What a whole decode yields: the rendered lines, in stream order, and why
/// the loop stopped.
#[derive(Debug)]
pub struct DecodeOutput {
    pub lines: Vec<String>,
    pub termination: Termination,
}

/// One decoded instruction extends the run: emitting its line and advancing
/// past its bytes keeps the accumulated lines a prefix of the whole run.
proof fn lemma_run_step(code: Seq<u8>, i: int, prev: Seq<Seq<char>>, line: Seq<char>, cur: Seq<
    Seq<char>,
>)
    requires
        0 <= i < code.len(),
        match spec_classify(code[i]) {
            Some(v) => v != Mov::RegMemToSeg && v != Mov::SegToRegMem,
            None => false,
        },
        i + spec_instr_size(code, i) <= code.len(),
        line == spec_line(code, i),
        spec_run(code, 0).0 == prev + spec_run(code, i).0,
        spec_run(code, 0).1 == spec_run(code, i).1,
        cur == prev.push(line),
    ensures
        spec_run(code, 0).0 == cur + spec_run(code, i + spec_instr_size(code, i)).0,
        spec_run(code, 0).1 == spec_run(code, i + spec_instr_size(code, i)).1,
{
    let rest = spec_run(code, i + spec_instr_size(code, i));
    assert(spec_run(code, i).0 == seq![spec_line(code, i)] + rest.0);
    assert(prev + (seq![line] + rest.0) =~= prev.push(line) + rest.0);
}

/// Runs the decode loop over a whole byte stream from offset zero: the lines
/// and the termination are exactly `spec_run` of the stream, so the output
/// is a pure function of the bytes.
pub fn decode_stream(code: &Vec<u8>) -> (out: DecodeOutput)
    ensures
        out.lines.deep_view() == spec_run(code@, 0).0,
        out.termination == spec_run(code@, 0).1,
{
    let mut lines: Vec<String> = Vec::new();
    let mut index: usize = 0;
    loop
        invariant
            index <= code@.len(),
            spec_run(code@, 0).0 == lines.deep_view() + spec_run(code@, index as int).0,
            spec_run(code@, 0).1 == spec_run(code@, index as int).1,
        decreases code@.len() - index,
    {
        if index >= code.len() {
            proof {
                assert(lines.deep_view() =~= lines.deep_view() + spec_run(
                    code@,
                    index as int,
                ).0);
            }
            return DecodeOutput { lines, termination: Termination::Exhausted };
        }
        let ghost i = index as int;
        let opcode = match identify_opcode(code[index]) {
            Ok(v) => v,
            Err(e) => {
                proof {
                    assert(lines.deep_view() =~= lines.deep_view() + spec_run(code@, i).0);
                }
                return DecodeOutput { lines, termination: Termination::Failed(e) };
            },
        };
        let step = match opcode {
            Mov::RegMemToFromReg => decode_regmem_tofrom_reg(code, &mut index),
            Mov::ImmToRegMem => decode_imm_to_regmem(code, &mut index),
            Mov::ImmToReg => decode_imm_to_reg(code, &mut index),
            Mov::MemToAcc => decode_mem_to_acc(code, &mut index),
            Mov::AccToMem => decode_acc_to_mem(code, &mut index),
            Mov::RegMemToSeg | Mov::SegToRegMem => {
                proof {
                    assert(lines.deep_view() =~= lines.deep_view() + spec_run(code@, i).0);
                }
                return DecodeOutput { lines, termination: Termination::UnhandledVariant(opcode) };
            },
        };
        let line = match step {
            Ok(line) => line,
            Err(e) => {
                proof {
                    assert(lines.deep_view() =~= lines.deep_view() + spec_run(code@, i).0);
                }
                return DecodeOutput { lines, termination: Termination::Failed(e) };
            },
        };
        let ghost prev = lines.deep_view();
        let ghost line_view = line@;
        lines.push(line);
        proof {
            assert(lines.deep_view() =~= prev.push(line_view));
            lemma_run_step(code@, i, prev, line_view, lines.deep_view());
        }
        index += 1;
    }
}

/// Decoding is a pure function of the byte stream: two decodes of the same
/// bytes from a fresh cursor yield the same lines and the same termination.
pub proof fn lemma_decode_deterministic(
    code: Seq<u8>,
    first: (Seq<Seq<char>>, Termination),
    second: (Seq<Seq<char>>, Termination),
)
    requires
        first == spec_run(code, 0),
        second == spec_run(code, 0),
    ensures
        first == second,
{
}

/// A stream that ends before an instruction's ModRM, displacement, address
/// or immediate bytes stops with `TruncatedInstruction` and emits nothing
/// for that instruction — a missing byte is reported, never read past the
/// end.
pub proof fn lemma_truncation_detected(code: Seq<u8>, i: int)
    requires
        0 <= i < code.len(),
        match spec_classify(code[i]) {
            Some(v) => v != Mov::RegMemToSeg && v != Mov::SegToRegMem,
            None => false,
        },
        i + spec_instr_size(code, i) > code.len(),
    ensures
        spec_run(code, i) == (
            Seq::<Seq<char>>::empty(),
            Termination::Failed(DecodeError::TruncatedInstruction),
        ),
{
}

/// In particular a stream truncated immediately after a decodable opcode
/// byte fails: every decodable form needs at least one byte past its opcode.
pub proof fn lemma_truncated_after_opcode(code: Seq<u8>, i: int)
    requires
        0 <= i < code.len(),
        i + 1 == code.len(),
        match spec_classify(code[i]) {
            Some(v) => v != Mov::RegMemToSeg && v != Mov::SegToRegMem,
            None => false,
        },
    ensures
        spec_run(code, i).1 == Termination::Failed(DecodeError::TruncatedInstruction),
{
    assert(spec_instr_size(code, i) >= 2);
}

} // verus!
