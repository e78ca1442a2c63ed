//! Operand resolution: register names, effective-address base expressions,
//! displacement-bearing memory expressions, and tagged immediate data.

use vstd::prelude::*;

use crate::opcode::DecodeError;
use crate::stream::read_address;
use crate::stream::read_bytes;
use crate::stream::sign_ext8;
use crate::stream::uword16;
use crate::stream::word16;
use crate::text::dec_str;
use crate::text::int_str;
use crate::text::lemma_dec_str_digits;
use crate::text::signed_decimal;
use crate::text::unsigned_decimal;

verus! {

/// The fixed table of 8086 register names, indexed by the 3-bit register
/// number and the word-size flag.
pub open spec fn reg_name_spec(reg: u8, w: bool) -> Seq<char> {
    if w {
        if reg == 0 {
            "ax"@
        } else if reg == 1 {
            "cx"@
        } else if reg == 2 {
            "dx"@
        } else if reg == 3 {
            "bx"@
        } else if reg == 4 {
            "sp"@
        } else if reg == 5 {
            "bp"@
        } else if reg == 6 {
            "si"@
        } else {
            "di"@
        }
    } else {
        if reg == 0 {
            "al"@
        } else if reg == 1 {
            "cl"@
        } else if reg == 2 {
            "dl"@
        } else if reg == 3 {
            "bl"@
        } else if reg == 4 {
            "ah"@
        } else if reg == 5 {
            "ch"@
        } else if reg == 6 {
            "dh"@
        } else {
            "bh"@
        }
    }
}

/// The fixed table of effective-address base expressions, indexed by the
/// 3-bit rm field. Entry 6 ("bp") is reachable only with a displacement:
/// with mod = 0 that slot instead encodes a direct address.
pub open spec fn base_eq_spec(rm: u8) -> Seq<char> {
    if rm == 0 {
        "bx + si"@
    } else if rm == 1 {
        "bx + di"@
    } else if rm == 2 {
        "bp + si"@
    } else if rm == 3 {
        "bp + di"@
    } else if rm == 4 {
        "si"@
    } else if rm == 5 {
        "di"@
    } else if rm == 6 {
        "bp"@
    } else {
        "bx"@
    }
}

/// The rendered memory expression for a base table entry and a signed
/// displacement: the base alone when the displacement is zero, otherwise
/// " + " or " - " followed by the displacement's magnitude.
pub open spec fn mem_expr_spec(rm: u8, disp: int) -> Seq<char> {
    if disp > 0 {
        "["@ + base_eq_spec(rm) + " + "@ + dec_str(disp as nat) + "]"@
    } else if disp < 0 {
        "["@ + base_eq_spec(rm) + " - "@ + dec_str((-disp) as nat) + "]"@
    } else {
        "["@ + base_eq_spec(rm) + "]"@
    }
}

/// The rendered direct-address operand: the unsigned absolute 16-bit
/// address in brackets, with no base register term.
pub open spec fn direct_addr_spec(addr: nat) -> Seq<char> {
    "["@ + dec_str(addr) + "]"@
}

/// How many displacement or address bytes follow the ModRM byte for a given
/// mod/rm pair.
pub open spec fn disp_size(mod_field: u8, rm_field: u8) -> int {
    if mod_field == 0 {
        if rm_field == 6 {
            2
        } else {
            0
        }
    } else if mod_field == 1 {
        1
    } else if mod_field == 2 {
        2
    } else {
        0
    }
}

/// The operand text selected by a mod/rm pair whose ModRM byte sits at
/// position `m` of the stream, with displacement bytes (if any) at m+1 and
/// m+2: a register name for register mode, a bracketed address for the
/// direct-address slot, and a base expression with optional displacement for
/// the other memory modes.
pub open spec fn operand_text_spec(code: Seq<u8>, m: int, mod_field: u8, rm_field: u8, w_bit: bool) -> Seq<char> {
    if mod_field == 3 {
        reg_name_spec(rm_field, w_bit)
    } else if mod_field == 0 && rm_field == 6 {
        direct_addr_spec(uword16(code[m + 1], code[m + 2]) as nat)
    } else if mod_field == 0 {
        "["@ + base_eq_spec(rm_field) + "]"@
    } else if mod_field == 1 {
        mem_expr_spec(rm_field, sign_ext8(code[m + 1]))
    } else {
        mem_expr_spec(rm_field, word16(code[m + 1], code[m + 2]))
    }
}

/// The rendered immediate datum with its width tag: "word N" for a 16-bit
/// immediate, "byte N" for an 8-bit one.
pub open spec fn data_text_spec(w_bit: bool, v: int) -> Seq<char> {
    if w_bit {
        "word "@ + int_str(v)
    } else {
        "byte "@ + int_str(v)
    }
}

/// The name of the register selected by a 3-bit register number and the
/// word-size flag, per the fixed sixteen-entry table.
pub fn get_reg_name(reg_num: u8, w_bit: bool) -> (r: &'static str)
    requires
        reg_num < 8,
    ensures
        r@ == reg_name_spec(reg_num, w_bit),
{
    if w_bit {
        match reg_num {
            0 => "ax",
            1 => "cx",
            2 => "dx",
            3 => "bx",
            4 => "sp",
            5 => "bp",
            6 => "si",
            _ => "di",
        }
    } else {
        match reg_num {
            0 => "al",
            1 => "cl",
            2 => "dl",
            3 => "bl",
            4 => "ah",
            5 => "ch",
            6 => "dh",
            _ => "bh",
        }
    }
}

/// The effective-address base expression selected by a 3-bit rm field, per
/// the fixed eight-entry table.
pub fn get_base_equation(rm_field: u8) -> (r: &'static str)
    requires
        rm_field < 8,
    ensures
        r@ == base_eq_spec(rm_field),
{
    match rm_field {
        0 => "bx + si",
        1 => "bx + di",
        2 => "bp + si",
        3 => "bp + di",
        4 => "si",
        5 => "di",
        6 => "bp",
        _ => "bx",
    }
}

/// Builds the bracketed memory expression for a base table entry and a
/// signed displacement, rendering sign and magnitude separately.
pub fn build_equation(rm_field: u8, displacement: i16) -> (r: String)
    requires
        rm_field < 8,
    ensures
        r@ == mem_expr_spec(rm_field, displacement as int),
{
    let base_equation = get_base_equation(rm_field);
    let mut r = String::from_str("[");
    r.append(base_equation);
    if displacement > 0 {
        r.append(" + ");
        let digits = signed_decimal(displacement);
        r.append(digits.as_str());
    } else if displacement < 0 {
        r.append(" - ");
        let mag: i32 = -(displacement as i32);
        let digits = unsigned_decimal(mag as u16);
        r.append(digits.as_str());
    }
    r.append("]");
    proof {
        assert(r@ =~= mem_expr_spec(rm_field, displacement as int));
    }
    r
}

/// Resolves the operand selected by a mod/rm pair, consuming the 0, 1 or 2
/// displacement or address bytes that follow the cursor position (the ModRM
/// byte). The cursor ends on the last byte consumed; running out of bytes
/// fails with `TruncatedInstruction`, resolving nothing and leaving the
/// cursor at the buffer's end.
pub fn read_operand(code: &Vec<u8>, index: &mut usize, mod_field: u8, rm_field: u8, w_bit: bool) -> (r: Result<String, DecodeError>)
    requires
        *old(index) < code@.len(),
        mod_field < 4,
        rm_field < 8,
    ensures
        ({
            let m = *old(index) as int;
            let need = disp_size(mod_field, rm_field);
            &&& m + need < code@.len() ==> {
                &&& r matches Ok(s)
                &&& s@ == operand_text_spec(code@, m, mod_field, rm_field, w_bit)
                &&& *final(index) == m + need
            }
            &&& m + need >= code@.len() ==> {
                &&& r == Err::<String, DecodeError>(DecodeError::TruncatedInstruction)
                &&& *final(index) == code@.len()
            }
        }),
{
    match mod_field {
        0 => {
            if rm_field == 6 {
                let address = match read_address(code, index) {
                    Ok(v) => v,
                    Err(e) => {
                        return Err(e);
                    },
                };
                let mut r = String::from_str("[");
                let digits = unsigned_decimal(address);
                r.append(digits.as_str());
                r.append("]");
                proof {
                    assert(r@ =~= operand_text_spec(
                        code@,
                        *old(index) as int,
                        mod_field,
                        rm_field,
                        w_bit,
                    ));
                }
                Ok(r)
            } else {
                let base_equation = get_base_equation(rm_field);
                let mut r = String::from_str("[");
                r.append(base_equation);
                r.append("]");
                proof {
                    assert(r@ =~= operand_text_spec(
                        code@,
                        *old(index) as int,
                        mod_field,
                        rm_field,
                        w_bit,
                    ));
                }
                Ok(r)
            }
        },
        1 | 2 => {
            let displacement = match read_bytes(code, index, mod_field == 2) {
                Ok(v) => v,
                Err(e) => {
                    return Err(e);
                },
            };
            Ok(build_equation(rm_field, displacement))
        },
        _ => {
            Ok(String::from_str(get_reg_name(rm_field, w_bit)))
        },
    }
}

/// Reads the 1- or 2-byte immediate that follows the cursor position and
/// renders it with its width tag ("byte N" / "word N"). The cursor ends on
/// the last byte consumed; running out of bytes fails with
/// `TruncatedInstruction`, leaving the cursor at the buffer's end.
pub fn read_data(code: &Vec<u8>, index: &mut usize, w_bit: bool) -> (r: Result<String, DecodeError>)
    requires
        *old(index) < code@.len(),
    ensures
        ({
            let p = *old(index) as int;
            let n: int = if w_bit {
                2
            } else {
                1
            };
            &&& p + n < code@.len() ==> {
                &&& r matches Ok(s)
                &&& s@ == data_text_spec(
                    w_bit,
                    if w_bit {
                        word16(code@[p + 1], code@[p + 2])
                    } else {
                        sign_ext8(code@[p + 1])
                    },
                )
                &&& *final(index) == p + n
            }
            &&& p + n >= code@.len() ==> {
                &&& r == Err::<String, DecodeError>(DecodeError::TruncatedInstruction)
                &&& *final(index) == code@.len()
            }
        }),
{
    let num = match read_bytes(code, index, w_bit) {
        Ok(v) => v,
        Err(e) => {
            return Err(e);
        },
    };
    let mut r = if w_bit {
        String::from_str("word ")
    } else {
        String::from_str("byte ")
    };
    let digits = signed_decimal(num);
    r.append(digits.as_str());
    Ok(r)
}

/// The base register term of a rendered memory expression is the fixed
/// table entry for the rm field, whatever the displacement: the expression
/// always reads '[', then the table entry, then the rest.
pub proof fn lemma_mem_expr_base_term(rm: u8, disp: int)
    requires
        rm < 8,
    ensures
        mem_expr_spec(rm, disp).len() > base_eq_spec(rm).len() + 1,
        mem_expr_spec(rm, disp)[0] == '[',
        mem_expr_spec(rm, disp).subrange(1, 1 + base_eq_spec(rm).len() as int) == base_eq_spec(
            rm,
        ),
{
    reveal_strlit("[");
    reveal_strlit("]");
    reveal_strlit(" + ");
    reveal_strlit(" - ");
    if disp > 0 {
        lemma_dec_str_digits(disp as nat);
    } else if disp < 0 {
        lemma_dec_str_digits((-disp) as nat);
    }
    assert(mem_expr_spec(rm, disp).subrange(1, 1 + base_eq_spec(rm).len() as int)
        =~= base_eq_spec(rm));
}

/// For every memory addressing mode with a base register (mod 0, 1 or 2, rm
/// other than the direct-address slot), the rendered operand opens with '['
/// and its base term is exactly the fixed table entry for rm, whatever
/// displacement bytes follow the ModRM byte.
pub proof fn lemma_operand_base_term(
    code: Seq<u8>,
    m: int,
    mod_field: u8,
    rm_field: u8,
    w_bit: bool,
)
    requires
        mod_field < 3,
        rm_field < 8,
        !(mod_field == 0 && rm_field == 6),
    ensures
        operand_text_spec(code, m, mod_field, rm_field, w_bit)[0] == '[',
        operand_text_spec(code, m, mod_field, rm_field, w_bit).subrange(
            1,
            1 + base_eq_spec(rm_field).len() as int,
        ) == base_eq_spec(rm_field),
        operand_text_spec(code, m, mod_field, rm_field, w_bit).len() > base_eq_spec(
            rm_field,
        ).len() + 1,
{
    if mod_field == 0 {
        assert(operand_text_spec(code, m, mod_field, rm_field, w_bit) == mem_expr_spec(
            rm_field,
            0,
        ));
        lemma_mem_expr_base_term(rm_field, 0);
    } else if mod_field == 1 {
        lemma_mem_expr_base_term(rm_field, sign_ext8(code[m + 1]));
    } else {
        lemma_mem_expr_base_term(rm_field, word16(code[m + 1], code[m + 2]));
    }
}

/// The displacement suffix of a rendered memory expression: nothing when the
/// displacement is zero, " + " and the magnitude's digits when positive,
/// " - " and the magnitude's digits when negative — a digit string after the
/// sign in either case, never a literal negative number.
pub proof fn lemma_mem_expr_suffix(rm: u8, disp: int)
    requires
        rm < 8,
    ensures
        disp == 0 ==> mem_expr_spec(rm, disp) == "["@ + base_eq_spec(rm) + "]"@,
        disp > 0 ==> mem_expr_spec(rm, disp) == "["@ + base_eq_spec(rm) + " + "@ + dec_str(
            disp as nat,
        ) + "]"@,
        disp < 0 ==> mem_expr_spec(rm, disp) == "["@ + base_eq_spec(rm) + " - "@ + dec_str(
            (-disp) as nat,
        ) + "]"@,
        disp > 0 ==> forall|i: int|
            0 <= i < dec_str(disp as nat).len() ==> '0' <= #[trigger] dec_str(disp as nat)[i]
                <= '9',
        disp < 0 ==> forall|i: int|
            0 <= i < dec_str((-disp) as nat).len() ==> '0' <= #[trigger] dec_str(
                (-disp) as nat,
            )[i] <= '9',
{
    if disp > 0 {
        lemma_dec_str_digits(disp as nat);
    } else if disp < 0 {
        lemma_dec_str_digits((-disp) as nat);
    }
}

} // verus!
