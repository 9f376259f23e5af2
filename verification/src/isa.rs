//! The instruction-set semantics: typed opcodes and trap vectors, and one
//! specification function per instruction and per trap giving the exact
//! successor state. `step_spec` composes fetch, program-counter advance
//! and execution; `run_n` iterates it.

use vstd::prelude::*;

use crate::state::{
    bit_set, dst_bits, flag_of, opcode_bits, sext, sr1_bits, sr2_bits, trap_bits, wrap_add,
    State, MEM_SIZE, PROG_START, RCND, RPC,
};

verus! {

/// The sixteen opcodes, decoded from bits 15 through 12. `Rti` and
/// `Reserved` are not implemented: they execute as no-ops.
#[derive(Clone, Copy, Debug, PartialEq, Eq, Structural)]
pub enum Opcode {
    Br,
    Add,
    Ld,
    St,
    Jsr,
    And,
    Ldr,
    Str,
    Rti,
    Not,
    Ldi,
    Sti,
    Jmp,
    Reserved,
    Lea,
    Trap,
}

/// The trap vectors the machine knows, decoded from the low eight bits
/// of a TRAP instruction. `Tin` and `Tputsp` are reported as reserved and
/// execute as no-ops; `Unknown` stands for every vector outside the known
/// set and is treated the same way.
#[derive(Clone, Copy, Debug, PartialEq, Eq, Structural)]
pub enum TrapVec {
    Tgetc,
    Tputc,
    Tputs,
    Tin,
    Tputsp,
    Thalt,
    Tinu16,
    Toutu16,
    Unknown,
}

/// The opcode of an instruction word.
pub open spec fn decode_opcode(w: u16) -> Opcode {
    let v = opcode_bits(w);
    if v == 0x0 {
        Opcode::Br
    } else if v == 0x1 {
        Opcode::Add
    } else if v == 0x2 {
        Opcode::Ld
    } else if v == 0x3 {
        Opcode::St
    } else if v == 0x4 {
        Opcode::Jsr
    } else if v == 0x5 {
        Opcode::And
    } else if v == 0x6 {
        Opcode::Ldr
    } else if v == 0x7 {
        Opcode::Str
    } else if v == 0x8 {
        Opcode::Rti
    } else if v == 0x9 {
        Opcode::Not
    } else if v == 0xa {
        Opcode::Ldi
    } else if v == 0xb {
        Opcode::Sti
    } else if v == 0xc {
        Opcode::Jmp
    } else if v == 0xd {
        Opcode::Reserved
    } else if v == 0xe {
        Opcode::Lea
    } else {
        Opcode::Trap
    }
}

/// The trap vector named by the low eight bits `v` of a TRAP instruction.
pub open spec fn decode_trap(v: u16) -> TrapVec {
    if v == 0x20 {
        TrapVec::Tgetc
    } else if v == 0x21 {
        TrapVec::Tputc
    } else if v == 0x22 {
        TrapVec::Tputs
    } else if v == 0x23 {
        TrapVec::Tin
    } else if v == 0x24 {
        TrapVec::Tputsp
    } else if v == 0x25 {
        TrapVec::Thalt
    } else if v == 0x26 {
        TrapVec::Tinu16
    } else if v == 0x27 {
        TrapVec::Toutu16
    } else {
        TrapVec::Unknown
    }
}

/// Writing a result: the destination register takes the value and the
/// condition register takes the value's flag.
pub open spec fn write_flags(s: State, r: u16, v: u16) -> State {
    State { reg: s.reg.update(r as int, v).update(RCND as int, flag_of(v)), ..s }
}

/// ADD: the first source plus either the sign-extended five-bit immediate
/// (bit 5 set) or the second source, wrapping modulo 65536; flags update.
pub open spec fn add_step(s: State, w: u16) -> State {
    let v1 = s.reg[sr1_bits(w) as int];
    let v2 = if bit_set(w, 5) {
        sext(w & 0x1f, 5)
    } else {
        s.reg[sr2_bits(w) as int]
    };
    write_flags(s, dst_bits(w), wrap_add(v1, v2))
}

/// AND: the first source bitwise-and either the sign-extended five-bit
/// immediate (bit 5 set) or the second source; flags update.
pub open spec fn and_step(s: State, w: u16) -> State {
    let v1 = s.reg[sr1_bits(w) as int];
    let v2 = if bit_set(w, 5) {
        sext(w & 0x1f, 5)
    } else {
        s.reg[sr2_bits(w) as int]
    };
    write_flags(s, dst_bits(w), v1 & v2)
}

/// The program-counter-relative effective address: the post-fetch program
/// counter plus the sign-extended nine-bit offset.
pub open spec fn pc_rel_addr(s: State, w: u16) -> u16 {
    wrap_add(s.reg[RPC as int], sext(w & 0x1ff, 9))
}

/// LD: load from the program-counter-relative address; flags update.
pub open spec fn ld_step(s: State, w: u16) -> State {
    write_flags(s, dst_bits(w), s.mem[pc_rel_addr(s, w) as int])
}

/// LDI: load through the pointer held at the program-counter-relative
/// address; flags update.
pub open spec fn ldi_step(s: State, w: u16) -> State {
    write_flags(s, dst_bits(w), s.mem[s.mem[pc_rel_addr(s, w) as int] as int])
}

/// LDR: load from the first source register plus the sign-extended
/// six-bit offset; flags update.
pub open spec fn ldr_step(s: State, w: u16) -> State {
    let addr = wrap_add(s.reg[sr1_bits(w) as int], sext(w & 0x3f, 6));
    write_flags(s, dst_bits(w), s.mem[addr as int])
}

/// LEA: the program-counter-relative address itself; flags update.
pub open spec fn lea_step(s: State, w: u16) -> State {
    write_flags(s, dst_bits(w), pc_rel_addr(s, w))
}

/// NOT: the bitwise complement of the first source; flags update.
pub open spec fn not_step(s: State, w: u16) -> State {
    write_flags(s, dst_bits(w), !s.reg[sr1_bits(w) as int])
}

/// ST: store the destination register at the program-counter-relative
/// address.
pub open spec fn st_step(s: State, w: u16) -> State {
    State { mem: s.mem.update(pc_rel_addr(s, w) as int, s.reg[dst_bits(w) as int]), ..s }
}

/// STI: store the destination register through the pointer held at the
/// program-counter-relative address.
pub open spec fn sti_step(s: State, w: u16) -> State {
    State {
        mem: s.mem.update(
            s.mem[pc_rel_addr(s, w) as int] as int,
            s.reg[dst_bits(w) as int],
        ),
        ..s
    }
}

/// STR: store the destination register at the first source register plus
/// the sign-extended six-bit offset.
pub open spec fn str_step(s: State, w: u16) -> State {
    let addr = wrap_add(s.reg[sr1_bits(w) as int], sext(w & 0x3f, 6));
    State { mem: s.mem.update(addr as int, s.reg[dst_bits(w) as int]), ..s }
}

/// JMP: the program counter takes the first source register.
pub open spec fn jmp_step(s: State, w: u16) -> State {
    State { reg: s.reg.update(RPC as int, s.reg[sr1_bits(w) as int]), ..s }
}

/// JSR: register 7 takes the pre-jump program counter; the program
/// counter then takes the sign-extended eleven-bit immediate (bit 11 set)
/// or the first source register, read after the save, so a jump through
/// register 7 lands on the saved address.
pub open spec fn jsr_step(s: State, w: u16) -> State {
    let saved = s.reg.update(7, s.reg[RPC as int]);
    let target = if bit_set(w, 11) {
        sext(w & 0x7ff, 11)
    } else {
        saved[sr1_bits(w) as int]
    };
    State { reg: saved.update(RPC as int, target), ..s }
}

/// BR: the program counter moves by the sign-extended nine-bit offset
/// exactly when the condition register meets the branch-condition mask
/// in bits 11 through 9.
pub open spec fn br_step(s: State, w: u16) -> State {
    if s.reg[RCND as int] & dst_bits(w) != 0 {
        State { reg: s.reg.update(RPC as int, pc_rel_addr(s, w)), ..s }
    } else {
        s
    }
}

/// GETC: one input word is consumed and its low byte lands in register 0,
/// zero-extended. With no pending input, register 0 takes 0, as a read at
/// end of input does.
pub open spec fn getc_step(s: State) -> State {
    if s.input.len() > 0 {
        State { reg: s.reg.update(0, s.input[0] & 0xff), input: s.input.skip(1), ..s }
    } else {
        State { reg: s.reg.update(0, 0u16), ..s }
    }
}

/// PUTC: the low byte of register 0 goes to the output.
pub open spec fn putc_step(s: State) -> State {
    State { output: s.output.push(s.reg[0] & 0xff), ..s }
}

/// The words a PUTS starting at `addr` writes: memory words up to but not
/// including the first zero word, addresses wrapping, at most `fuel`
/// words in all.
pub open spec fn puts_seq(mem: Seq<u16>, addr: u16, fuel: nat) -> Seq<u16>
    recommends
        mem.len() == MEM_SIZE,
    decreases fuel,
{
    if fuel == 0 {
        Seq::empty()
    } else if mem[addr as int] == 0 {
        Seq::empty()
    } else {
        seq![mem[addr as int]] + puts_seq(mem, wrap_add(addr, 1), (fuel - 1) as nat)
    }
}

/// PUTS: the words starting at the address in register 0, up to the first
/// zero word, go to the output. A full sweep of memory without a zero
/// word ends the scan.
pub open spec fn puts_step(s: State) -> State {
    State { output: s.output + puts_seq(s.mem, s.reg[0], MEM_SIZE as nat), ..s }
}

/// HALT: the running flag falls; the run loop exits.
pub open spec fn halt_step(s: State) -> State {
    State { running: false, ..s }
}

/// The length of the pending input's first line: the index of the first
/// newline word, or the whole queue when none is pending.
pub open spec fn line_len(s: Seq<u16>) -> nat
    decreases s.len(),
{
    if s.len() == 0 {
        0
    } else if s[0] == 10 {
        0
    } else {
        1 + line_len(s.skip(1))
    }
}

/// Whether `c` is the code of a hexadecimal digit.
pub open spec fn is_hex_digit(c: u16) -> bool {
    (0x30 <= c && c <= 0x39) || (0x61 <= c && c <= 0x66) || (0x41 <= c && c <= 0x46)
}

/// The value of a hexadecimal digit's code.
pub open spec fn hex_val(c: u16) -> u16
    recommends
        is_hex_digit(c),
{
    if 0x30 <= c && c <= 0x39 {
        (c - 0x30) as u16
    } else if 0x61 <= c && c <= 0x66 {
        (c - 0x57) as u16
    } else {
        (c - 0x37) as u16
    }
}

/// Hexadecimal digits folded left to right onto `acc`: any non-digit or
/// any value beyond 16 bits fails the parse.
pub open spec fn parse_hex_rec(s: Seq<u16>, acc: u16) -> Option<u16>
    decreases s.len(),
{
    if s.len() == 0 {
        Some(acc)
    } else if !is_hex_digit(s[0]) {
        None
    } else if acc > 0xfff {
        None
    } else {
        parse_hex_rec(s.skip(1), (acc * 16 + hex_val(s[0])) as u16)
    }
}

/// A line parsed as a 16-bit hexadecimal number: an optional leading
/// plus sign, then one or more hexadecimal digits whose value fits in 16
/// bits; anything else fails. A minus sign fails, as it does for an
/// unsigned parse.
pub open spec fn parse_hex(s: Seq<u16>) -> Option<u16> {
    let digits = if s.len() > 0 && s[0] == 0x2b {
        s.skip(1)
    } else {
        s
    };
    if digits.len() == 0 {
        None
    } else {
        parse_hex_rec(digits, 0)
    }
}

/// INU16: one line is consumed from the pending input (its terminating
/// newline included). If it parses as hexadecimal, register 0 takes the
/// value; otherwise the failure is only reported and no register changes.
pub open spec fn inu16_step(s: State) -> State {
    let k = line_len(s.input) as int;
    let rest = if k < s.input.len() {
        s.input.skip(k + 1)
    } else {
        Seq::<u16>::empty()
    };
    match parse_hex(s.input.take(k)) {
        Some(v) => State { reg: s.reg.update(0, v), input: rest, ..s },
        None => State { input: rest, ..s },
    }
}

/// The code of a hexadecimal digit, lower case.
pub open spec fn hex_digit_char(d: u16) -> u16
    recommends
        d < 16,
{
    if d < 10 {
        (0x30 + d) as u16
    } else {
        (0x57 + d) as u16
    }
}

/// A 16-bit value written as hexadecimal text: `0x`, four lower-case
/// digits, and a line break.
pub open spec fn hex_chars(v: u16) -> Seq<u16> {
    seq![
        0x30u16,
        0x78u16,
        hex_digit_char(v >> 12u16),
        hex_digit_char((v >> 8u16) & 0xf),
        hex_digit_char((v >> 4u16) & 0xf),
        hex_digit_char(v & 0xf),
        10u16,
    ]
}

/// OUTU16: register 0, written as hexadecimal text, goes to the output.
pub open spec fn outu16_step(s: State) -> State {
    State { output: s.output + hex_chars(s.reg[0]), ..s }
}

/// A TRAP instruction: dispatch on the trap vector. `Tin`, `Tputsp` and
/// every unknown vector are reported as reserved and change nothing.
pub open spec fn trap_step(s: State, w: u16) -> State {
    match decode_trap(trap_bits(w)) {
        TrapVec::Tgetc => getc_step(s),
        TrapVec::Tputc => putc_step(s),
        TrapVec::Tputs => puts_step(s),
        TrapVec::Tin => s,
        TrapVec::Tputsp => s,
        TrapVec::Thalt => halt_step(s),
        TrapVec::Tinu16 => inu16_step(s),
        TrapVec::Toutu16 => outu16_step(s),
        TrapVec::Unknown => s,
    }
}

/// Execution of one already-fetched instruction, the program counter
/// already advanced. The unimplemented opcodes change nothing.
pub open spec fn exec_instr(s: State, w: u16) -> State {
    match decode_opcode(w) {
        Opcode::Br => br_step(s, w),
        Opcode::Add => add_step(s, w),
        Opcode::Ld => ld_step(s, w),
        Opcode::St => st_step(s, w),
        Opcode::Jsr => jsr_step(s, w),
        Opcode::And => and_step(s, w),
        Opcode::Ldr => ldr_step(s, w),
        Opcode::Str => str_step(s, w),
        Opcode::Rti => s,
        Opcode::Not => not_step(s, w),
        Opcode::Ldi => ldi_step(s, w),
        Opcode::Sti => sti_step(s, w),
        Opcode::Jmp => jmp_step(s, w),
        Opcode::Reserved => s,
        Opcode::Lea => lea_step(s, w),
        Opcode::Trap => trap_step(s, w),
    }
}

/// One machine step: fetch the word at the program counter, advance the
/// counter with wraparound, then execute the word.
pub open spec fn step_spec(s: State) -> State {
    let pc = s.reg[RPC as int];
    let fetched = State { reg: s.reg.update(RPC as int, wrap_add(pc, 1)), ..s };
    exec_instr(fetched, s.mem[pc as int])
}

/// `n` machine steps from `s`.
pub open spec fn run_n(s: State, n: nat) -> State
    decreases n,
{
    if n == 0 {
        s
    } else {
        run_n(step_spec(s), (n - 1) as nat)
    }
}

/// Stepping once more runs the step function on the result so far: the
/// iteration can be unrolled from either end.
pub proof fn lemma_run_n_snoc(s: State, n: nat)
    ensures
        run_n(s, n + 1) == step_spec(run_n(s, n)),
    decreases n,
{
    assert(run_n(s, n + 1) == run_n(step_spec(s), n));
    if n > 0 {
        lemma_run_n_snoc(step_spec(s), (n - 1) as nat);
        assert(run_n(s, n) == run_n(step_spec(s), (n - 1) as nat));
    }
}

/// The number of words a program image of `len` bytes fills: bytes pair
/// into words, an odd trailing byte making a final word on its own.
pub open spec fn image_words(len: nat) -> nat {
    (len + 1) / 2
}

/// The word at index `i` of a program image: the byte at `2 i` is the low
/// byte and the byte at `2 i + 1`, when present, the high byte
/// (little-endian byte order).
pub open spec fn image_word(img: Seq<u8>, i: int) -> u16
    recommends
        0 <= i < image_words(img.len()),
{
    if 2 * i + 1 < img.len() {
        (img[2 * i] + 256 * img[2 * i + 1]) as u16
    } else {
        img[2 * i] as u16
    }
}

/// Loading a program image: its words land consecutively at the origin;
/// every other memory word keeps its value.
pub open spec fn load_spec(s: State, img: Seq<u8>) -> State {
    State {
        mem: Seq::new(
            s.mem.len(),
            |a: int|
                if PROG_START <= a < PROG_START + image_words(img.len()) {
                    image_word(img, a - PROG_START)
                } else {
                    s.mem[a]
                },
        ),
        ..s
    }
}

} // verus!
