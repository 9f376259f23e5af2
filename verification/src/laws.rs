//! The library's laws: proof functions stating what holds of the
//! semantics for every input — sign extension against two's-complement
//! arithmetic, wraparound addition, the condition-flag rule, the operand
//! modes of ADD, AND and JSR, and the branch condition.

use vstd::arithmetic::power2::{lemma2_to64, pow2};
use vstd::prelude::*;

use crate::isa::{
    add_step, and_step, br_step, decode_opcode, exec_instr, jsr_step, step_spec, Opcode,
};
use crate::state::{
    bit_set, dst_bits, flag_of, sext, signed16, sr1_bits, sr2_bits, wrap_add, State, FL_NEG,
    FL_POS, FL_ZRO, RCND, RPC,
};

verus! {

/// The two's-complement value of an `n`-bit field: the field itself when
/// its sign bit is clear, the field minus `2^n` when it is set.
pub open spec fn field_signed(v: u16, n: u16) -> int
    recommends
        1 <= n < 16,
        v >> n == 0,
{
    if v < pow2((n - 1) as nat) {
        v as int
    } else {
        v - pow2(n as nat)
    }
}

/// Sign extension reproduces two's-complement sign extension: for each
/// immediate width the instruction set uses and every field of that
/// width, the extended word's signed value is the field's signed value.
pub proof fn lemma_sign_extend_signed(v: u16, n: u16)
    requires
        n == 5 || n == 6 || n == 9 || n == 11,
        v >> n == 0,
    ensures
        signed16(sext(v, n)) == field_signed(v, n),
{
    lemma2_to64();
    if n == 5 {
        assert(v < 32 && ((v >> 4u16) & 1 != 0 ==> v >= 16 && (v | (0xffffu16 << 5u16)) == v
            + 0xffe0) && ((v >> 4u16) & 1 == 0 ==> v < 16)) by (bit_vector)
            requires
                v >> 5u16 == 0,
        ;
    } else if n == 6 {
        assert(v < 64 && ((v >> 5u16) & 1 != 0 ==> v >= 32 && (v | (0xffffu16 << 6u16)) == v
            + 0xffc0) && ((v >> 5u16) & 1 == 0 ==> v < 32)) by (bit_vector)
            requires
                v >> 6u16 == 0,
        ;
    } else if n == 9 {
        assert(v < 512 && ((v >> 8u16) & 1 != 0 ==> v >= 256 && (v | (0xffffu16 << 9u16)) == v
            + 0xfe00) && ((v >> 8u16) & 1 == 0 ==> v < 256)) by (bit_vector)
            requires
                v >> 9u16 == 0,
        ;
    } else {
        assert(v < 2048 && ((v >> 10u16) & 1 != 0 ==> v >= 1024 && (v | (0xffffu16 << 11u16)) == v
            + 0xf800) && ((v >> 10u16) & 1 == 0 ==> v < 1024)) by (bit_vector)
            requires
                v >> 11u16 == 0,
        ;
    }
}

/// Word addition wraps modulo 65536: in particular the largest word plus
/// one is zero.
pub proof fn lemma_wrap_add_mod(a: u16, b: u16)
    ensures
        wrap_add(a, b) == (a + b) % 0x10000,
        a + b < 0x10000 ==> wrap_add(a, b) == a + b,
        a + b >= 0x10000 ==> wrap_add(a, b) == a + b - 0x10000,
{
}

/// The condition-flag rule: a value's flag is ZERO exactly when the
/// value is zero, NEG exactly when bit 15 is set and the value is not
/// zero, and POS otherwise — always exactly one of the three.
pub proof fn lemma_flag_rule(x: u16)
    ensures
        flag_of(x) == FL_ZRO <==> x == 0,
        flag_of(x) == FL_NEG <==> (bit_set(x, 15) && x != 0),
        flag_of(x) == FL_POS <==> (!bit_set(x, 15) && x != 0),
        flag_of(x) == FL_POS || flag_of(x) == FL_ZRO || flag_of(x) == FL_NEG,
{
    assert((x >> 15u16) & 1 != 0 <==> x >= 0x8000) by (bit_vector);
}

/// After any flag-updating instruction the condition register holds
/// exactly one of the three flag values.
pub proof fn lemma_flags_one_hot(s: State, w: u16)
    requires
        s.inv(),
        decode_opcode(w) == Opcode::Add || decode_opcode(w) == Opcode::And || decode_opcode(w)
            == Opcode::Ld || decode_opcode(w) == Opcode::Ldi || decode_opcode(w) == Opcode::Ldr
            || decode_opcode(w) == Opcode::Lea || decode_opcode(w) == Opcode::Not,
    ensures
        exec_instr(s, w).reg[RCND as int] == FL_POS || exec_instr(s, w).reg[RCND as int] == FL_ZRO
            || exec_instr(s, w).reg[RCND as int] == FL_NEG,
{
    assert((w >> 9u16) & 0x7 < 8) by (bit_vector);
}

/// The condition-register invariant: once the register holds one of the
/// three flag values, every machine step keeps it so — a flag-updating
/// instruction writes exactly one flag, and no other instruction writes
/// the register.
pub proof fn lemma_flag_invariant_preserved(s: State)
    requires
        s.inv(),
        s.reg[RCND as int] == FL_POS || s.reg[RCND as int] == FL_ZRO || s.reg[RCND as int]
            == FL_NEG,
    ensures
        step_spec(s).reg[RCND as int] == FL_POS || step_spec(s).reg[RCND as int] == FL_ZRO
            || step_spec(s).reg[RCND as int] == FL_NEG,
{
    let w = s.mem[s.reg[RPC as int] as int];
    assert((w >> 9u16) & 0x7 < 8 && (w >> 6u16) & 0x7 < 8 && (w & 0x7) < 8) by (bit_vector);
}

/// ADD and AND operand modes: bit 5 of the instruction selects the
/// sign-extended five-bit immediate over the second source register, and
/// the destination takes the corresponding result.
pub proof fn lemma_add_and_mode_select(s: State, w: u16)
    requires
        s.inv(),
    ensures
        bit_set(w, 5) ==> add_step(s, w).reg[dst_bits(w) as int] == wrap_add(
            s.reg[sr1_bits(w) as int],
            sext(w & 0x1f, 5),
        ),
        !bit_set(w, 5) ==> add_step(s, w).reg[dst_bits(w) as int] == wrap_add(
            s.reg[sr1_bits(w) as int],
            s.reg[sr2_bits(w) as int],
        ),
        bit_set(w, 5) ==> and_step(s, w).reg[dst_bits(w) as int] == (s.reg[sr1_bits(w) as int]
            & sext(w & 0x1f, 5)),
        !bit_set(w, 5) ==> and_step(s, w).reg[dst_bits(w) as int] == (s.reg[sr1_bits(w) as int]
            & s.reg[sr2_bits(w) as int]),
{
    assert((w >> 9u16) & 0x7 < 8) by (bit_vector);
}

/// JSR modes: register 7 always receives the pre-jump program counter;
/// bit 11 selects the sign-extended eleven-bit immediate target over the
/// register-indirect target, the source being read after the save.
pub proof fn lemma_jsr_mode_select(s: State, w: u16)
    requires
        s.inv(),
    ensures
        jsr_step(s, w).reg[7] == s.reg[RPC as int],
        bit_set(w, 11) ==> jsr_step(s, w).reg[RPC as int] == sext(w & 0x7ff, 11),
        !bit_set(w, 11) && sr1_bits(w) != 7 ==> jsr_step(s, w).reg[RPC as int] == s.reg[sr1_bits(
            w,
        ) as int],
        !bit_set(w, 11) && sr1_bits(w) == 7 ==> jsr_step(s, w).reg[RPC as int] == s.reg[RPC as int],
{
    assert((w >> 6u16) & 0x7 < 8) by (bit_vector);
}

/// The branch condition: BR moves the program counter by the
/// sign-extended nine-bit offset exactly when the condition register
/// meets the branch-condition mask; otherwise, and in every other
/// respect, the state is unchanged.
pub proof fn lemma_br_condition(s: State, w: u16)
    requires
        s.inv(),
    ensures
        (s.reg[RCND as int] & dst_bits(w)) != 0 ==> br_step(s, w).reg[RPC as int] == wrap_add(
            s.reg[RPC as int],
            sext(w & 0x1ff, 9),
        ),
        (s.reg[RCND as int] & dst_bits(w)) == 0 ==> br_step(s, w) == s,
        br_step(s, w).mem == s.mem,
        br_step(s, w).output == s.output,
        forall|r: int| 0 <= r < s.reg.len() && r != RPC ==> br_step(s, w).reg[r] == s.reg[r],
{
}

} // verus!
