use lc3vm::isa::{Opcode, TrapVec};
use lc3vm::Machine;

#[test]
fn opcode_fields_decode() {
    // 0x1021 = ADD R0, R0, #1
    assert_eq!(Machine::opcode(0x1021), Opcode::Add);
    assert_eq!(Machine::dstreg(0x1021), 0);
    assert_eq!(Machine::srcreg1(0x1021), 0);
    // 0x1042 = ADD R0, R1, R2
    assert_eq!(Machine::srcreg1(0x1042), 1);
    assert_eq!(Machine::srcreg2(0x1042), 2);
    // destination bits 11-9
    assert_eq!(Machine::dstreg(0xA405), 2);
}

#[test]
fn all_sixteen_opcodes_decode() {
    let expected = [
        Opcode::Br,
        Opcode::Add,
        Opcode::Ld,
        Opcode::St,
        Opcode::Jsr,
        Opcode::And,
        Opcode::Ldr,
        Opcode::Str,
        Opcode::Rti,
        Opcode::Not,
        Opcode::Ldi,
        Opcode::Sti,
        Opcode::Jmp,
        Opcode::Reserved,
        Opcode::Lea,
        Opcode::Trap,
    ];
    for (i, e) in expected.iter().enumerate() {
        let w = (i as u16) << 12;
        assert_eq!(Machine::opcode(w), *e);
    }
}

#[test]
fn trap_vectors_decode() {
    assert_eq!(Machine::trapvec(0xF020), TrapVec::Tgetc);
    assert_eq!(Machine::trapvec(0xF021), TrapVec::Tputc);
    assert_eq!(Machine::trapvec(0xF022), TrapVec::Tputs);
    assert_eq!(Machine::trapvec(0xF023), TrapVec::Tin);
    assert_eq!(Machine::trapvec(0xF024), TrapVec::Tputsp);
    assert_eq!(Machine::trapvec(0xF025), TrapVec::Thalt);
    assert_eq!(Machine::trapvec(0xF026), TrapVec::Tinu16);
    assert_eq!(Machine::trapvec(0xF027), TrapVec::Toutu16);
    assert_eq!(Machine::trapvec(0xF000), TrapVec::Unknown);
    assert_eq!(Machine::trapvec(0xF0FF), TrapVec::Unknown);
    // only the low eight bits matter
    assert_eq!(Machine::trapvec(0x0025), TrapVec::Thalt);
}

#[test]
fn bit_test() {
    assert!(Machine::is_bit_set(0x0020, 5));
    assert!(!Machine::is_bit_set(0x0020, 4));
    assert!(Machine::is_bit_set(0x8000, 15));
    assert!(!Machine::is_bit_set(0x7FFF, 15));
}

#[test]
fn sign_extend_five_bits() {
    assert_eq!(Machine::sign_extend_immediate(0x01, 5), 0x0001);
    assert_eq!(Machine::sign_extend_immediate(0x0F, 5), 0x000F);
    assert_eq!(Machine::sign_extend_immediate(0x10, 5), 0xFFF0);
    assert_eq!(Machine::sign_extend_immediate(0x1F, 5), 0xFFFF);
    assert_eq!(Machine::sign_extend_immediate(0x10, 5) as i16, -16);
    assert_eq!(Machine::sign_extend_immediate(0x1F, 5) as i16, -1);
}

#[test]
fn sign_extend_six_bits() {
    assert_eq!(Machine::sign_extend_immediate(0x1F, 6), 0x001F);
    assert_eq!(Machine::sign_extend_immediate(0x20, 6), 0xFFE0);
    assert_eq!(Machine::sign_extend_immediate(0x3F, 6), 0xFFFF);
    assert_eq!(Machine::sign_extend_immediate(0x20, 6) as i16, -32);
}

#[test]
fn sign_extend_nine_bits() {
    assert_eq!(Machine::sign_extend_immediate(0x0FF, 9), 0x00FF);
    assert_eq!(Machine::sign_extend_immediate(0x100, 9), 0xFF00);
    assert_eq!(Machine::sign_extend_immediate(0x1FF, 9), 0xFFFF);
    assert_eq!(Machine::sign_extend_immediate(0x100, 9) as i16, -256);
}

#[test]
fn sign_extend_eleven_bits() {
    assert_eq!(Machine::sign_extend_immediate(0x3FF, 11), 0x03FF);
    assert_eq!(Machine::sign_extend_immediate(0x400, 11), 0xFC00);
    assert_eq!(Machine::sign_extend_immediate(0x7FF, 11), 0xFFFF);
    assert_eq!(Machine::sign_extend_immediate(0x400, 11) as i16, -1024);
}

#[test]
fn sign_extend_round_trips_through_signed() {
    // every width: the extended word read as i16 equals the field's
    // two's-complement value
    for v in 0u16..32 {
        let signed = if v < 16 { v as i32 } else { v as i32 - 32 };
        assert_eq!(Machine::sign_extend_immediate(v, 5) as i16 as i32, signed);
    }
    for v in 0u16..64 {
        let signed = if v < 32 { v as i32 } else { v as i32 - 64 };
        assert_eq!(Machine::sign_extend_immediate(v, 6) as i16 as i32, signed);
    }
    for v in 0u16..512 {
        let signed = if v < 256 { v as i32 } else { v as i32 - 512 };
        assert_eq!(Machine::sign_extend_immediate(v, 9) as i16 as i32, signed);
    }
    for v in 0u16..2048 {
        let signed = if v < 1024 { v as i32 } else { v as i32 - 2048 };
        assert_eq!(Machine::sign_extend_immediate(v, 11) as i16 as i32, signed);
    }
}
