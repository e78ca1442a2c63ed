use mov_decode::opcode::opcode_is_acc_to_mem;
use mov_decode::opcode::opcode_is_imm_to_reg;
use mov_decode::opcode::opcode_is_imm_to_regmem;
use mov_decode::opcode::opcode_is_mem_to_acc;
use mov_decode::opcode::opcode_is_regmem_to_seg;
use mov_decode::opcode::opcode_is_regmem_tofrom_reg;
use mov_decode::opcode::opcode_is_seg_to_regmem;
use mov_decode::opcode::DecodeError;
use mov_decode::operand::build_equation;
use mov_decode::operand::get_base_equation;
use mov_decode::operand::get_reg_name;
use mov_decode::operand::read_data;
use mov_decode::operand::read_operand;
use mov_decode::stream::increment_index;
use mov_decode::stream::read_bytes;
use mov_decode::text::signed_decimal;
use mov_decode::text::unsigned_decimal;

#[test]
fn register_name_table() {
    let word_names = ["ax", "cx", "dx", "bx", "sp", "bp", "si", "di"];
    let byte_names = ["al", "cl", "dl", "bl", "ah", "ch", "dh", "bh"];
    for reg in 0..8u8 {
        assert_eq!(get_reg_name(reg, true), word_names[reg as usize]);
        assert_eq!(get_reg_name(reg, false), byte_names[reg as usize]);
    }
}

#[test]
fn base_equation_table() {
    let expected = [
        "bx + si", "bx + di", "bp + si", "bp + di", "si", "di", "bp", "bx",
    ];
    for rm in 0..8u8 {
        assert_eq!(get_base_equation(rm), expected[rm as usize]);
    }
}

#[test]
fn equation_displacement_sign_and_magnitude() {
    assert_eq!(build_equation(0, 0), "[bx + si]");
    assert_eq!(build_equation(0, 4), "[bx + si + 4]");
    assert_eq!(build_equation(0, -4), "[bx + si - 4]");
    assert_eq!(build_equation(6, 257), "[bp + 257]");
    assert_eq!(build_equation(7, -32768), "[bx - 32768]");
    assert_eq!(build_equation(4, 32767), "[si + 32767]");
}

#[test]
fn opcode_predicates() {
    assert!(opcode_is_regmem_tofrom_reg(0x88));
    assert!(opcode_is_regmem_tofrom_reg(0x8B));
    assert!(!opcode_is_regmem_tofrom_reg(0x8C));
    assert!(opcode_is_imm_to_regmem(0xC6));
    assert!(opcode_is_imm_to_regmem(0xC7));
    assert!(!opcode_is_imm_to_regmem(0xC8));
    assert!(opcode_is_imm_to_reg(0xB0));
    assert!(opcode_is_imm_to_reg(0xBF));
    assert!(!opcode_is_imm_to_reg(0xA0));
    assert!(opcode_is_mem_to_acc(0xA0));
    assert!(opcode_is_mem_to_acc(0xA1));
    assert!(!opcode_is_mem_to_acc(0xA2));
    assert!(opcode_is_acc_to_mem(0xA2));
    assert!(opcode_is_acc_to_mem(0xA3));
    assert!(!opcode_is_acc_to_mem(0xA1));
    assert!(opcode_is_regmem_to_seg(0x8E));
    assert!(!opcode_is_regmem_to_seg(0x46));
    assert!(opcode_is_seg_to_regmem(0x8C));
    assert!(!opcode_is_seg_to_regmem(0x8D));
}

#[test]
fn cursor_moves_and_bounds() {
    let code = vec![0x01u8, 0x02, 0x03];
    let mut index = 0usize;
    assert_eq!(increment_index(&code, &mut index), Ok(()));
    assert_eq!(index, 1);
    assert_eq!(increment_index(&code, &mut index), Ok(()));
    assert_eq!(index, 2);
    assert_eq!(
        increment_index(&code, &mut index),
        Err(DecodeError::TruncatedInstruction)
    );
    assert_eq!(index, 3);
}

#[test]
fn byte_reads_sign_extend() {
    let code = vec![0x00u8, 0x7F, 0x80, 0xFF];
    let mut index = 0usize;
    assert_eq!(read_bytes(&code, &mut index, false), Ok(127));
    assert_eq!(index, 1);
    assert_eq!(read_bytes(&code, &mut index, false), Ok(-128));
    assert_eq!(index, 2);
}

#[test]
fn word_reads_are_little_endian() {
    let code = vec![0x00u8, 0x2C, 0x01];
    let mut index = 0usize;
    assert_eq!(read_bytes(&code, &mut index, true), Ok(300));
    assert_eq!(index, 2);

    let code = vec![0x00u8, 0x00, 0x80];
    let mut index = 0usize;
    assert_eq!(read_bytes(&code, &mut index, true), Ok(-32768));
}

#[test]
fn word_read_past_end_fails() {
    let code = vec![0x00u8, 0x2C];
    let mut index = 0usize;
    assert_eq!(
        read_bytes(&code, &mut index, true),
        Err(DecodeError::TruncatedInstruction)
    );
}

#[test]
fn operand_register_mode_consumes_nothing() {
    let code = vec![0xD9u8];
    let mut index = 0usize;
    assert_eq!(read_operand(&code, &mut index, 3, 1, true), Ok("cx".to_string()));
    assert_eq!(index, 0);
    let mut index = 0usize;
    assert_eq!(read_operand(&code, &mut index, 3, 1, false), Ok("cl".to_string()));
}

#[test]
fn operand_direct_address_consumes_two_bytes() {
    let code = vec![0x00u8, 0x10, 0x00];
    let mut index = 0usize;
    assert_eq!(read_operand(&code, &mut index, 0, 6, true), Ok("[16]".to_string()));
    assert_eq!(index, 2);
}

#[test]
fn operand_direct_address_is_unsigned() {
    let code = vec![0x00u8, 0xFF, 0xFF];
    let mut index = 0usize;
    assert_eq!(read_operand(&code, &mut index, 0, 6, true), Ok("[65535]".to_string()));

    let code = vec![0x00u8, 0x00, 0x80];
    let mut index = 0usize;
    assert_eq!(read_operand(&code, &mut index, 0, 6, false), Ok("[32768]".to_string()));
}

#[test]
fn operand_displacement_modes() {
    let code = vec![0x00u8, 0xFB];
    let mut index = 0usize;
    assert_eq!(
        read_operand(&code, &mut index, 1, 2, true),
        Ok("[bp + si - 5]".to_string())
    );
    assert_eq!(index, 1);

    let code = vec![0x00u8, 0x2C, 0x01];
    let mut index = 0usize;
    assert_eq!(
        read_operand(&code, &mut index, 2, 5, true),
        Ok("[di + 300]".to_string())
    );
    assert_eq!(index, 2);
}

#[test]
fn operand_truncated_displacement_fails() {
    let code = vec![0x00u8];
    let mut index = 0usize;
    assert_eq!(
        read_operand(&code, &mut index, 1, 0, true),
        Err(DecodeError::TruncatedInstruction)
    );
}

#[test]
fn data_reads_carry_width_tags() {
    let code = vec![0x00u8, 0x1D];
    let mut index = 0usize;
    assert_eq!(read_data(&code, &mut index, false), Ok("byte 29".to_string()));

    let code = vec![0x00u8, 0x2A, 0x00];
    let mut index = 0usize;
    assert_eq!(read_data(&code, &mut index, true), Ok("word 42".to_string()));

    let code = vec![0x00u8, 0xFF, 0xFF];
    let mut index = 0usize;
    assert_eq!(read_data(&code, &mut index, true), Ok("word -1".to_string()));
}

#[test]
fn decimal_rendering() {
    assert_eq!(unsigned_decimal(0), "0");
    assert_eq!(unsigned_decimal(7), "7");
    assert_eq!(unsigned_decimal(10), "10");
    assert_eq!(unsigned_decimal(65535), "65535");
    assert_eq!(signed_decimal(0), "0");
    assert_eq!(signed_decimal(300), "300");
    assert_eq!(signed_decimal(-1), "-1");
    assert_eq!(signed_decimal(-32768), "-32768");
    assert_eq!(signed_decimal(32767), "32767");
}
