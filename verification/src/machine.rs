//! The executable machine: memory, register file, running flag, and the
//! console queues. Every method's contract is stated over the model in
//! `state` and the semantics in `isa`.

use vstd::prelude::*;

use crate::isa::{
    add_step, and_step, br_step, decode_opcode, decode_trap, exec_instr, getc_step, halt_step,
    hex_chars, hex_digit_char, hex_val, image_word, image_words, inu16_step, jmp_step, jsr_step,
    ld_step, ldi_step, ldr_step, lea_step, lemma_run_n_snoc, line_len, load_spec, not_step,
    outu16_step, parse_hex, parse_hex_rec, putc_step, puts_seq, puts_step, run_n, st_step,
    step_spec, sti_step, str_step, trap_step, Opcode, TrapVec,
};
use crate::state::{
    bit_set, dst_bits, flag_of, init_state, sext, sr1_bits, sr2_bits, start_of, trap_bits,
    wrap_add, State, FL_NEG, FL_POS, FL_ZRO, MEM_SIZE, NUM_REG, PROG_START, RCND, RPC,
};

verus! {

/// The virtual machine state: 65536 memory words, ten registers, the
/// running flag, and the console modelled as a queue of pending input
/// words and a log of output words.
pub struct Machine {
    mem: Vec<u16>,
    reg: Vec<u16>,
    running: bool,
    input: Vec<u16>,
    output: Vec<u16>,
}

impl View for Machine {
    type V = State;

    closed spec fn view(&self) -> State {
        State {
            mem: self.mem@,
            reg: self.reg@,
            running: self.running,
            input: self.input@,
            output: self.output@,
        }
    }
}

/// A field masked to `n` bits fits in `n` bits, for each immediate width
/// the instruction set uses.
proof fn lemma_mask_fits(w: u16)
    by (bit_vector)
    ensures
        (w & 0x1f) >> 5u16 == 0,
        (w & 0x3f) >> 6u16 == 0,
        (w & 0x1ff) >> 9u16 == 0,
        (w & 0x7ff) >> 11u16 == 0,
{
}

/// Each four-bit slice of a word is below 16.
proof fn lemma_nibbles(v: u16)
    by (bit_vector)
    ensures
        v >> 12u16 < 16,
        (v >> 8u16) & 0xf < 16,
        (v >> 4u16) & 0xf < 16,
        v & 0xf < 16,
{
}

/// `line_len` is pinned down by its characterisation: everything before
/// index `k` is no newline, and `k` is the end of the queue or a newline.
proof fn lemma_line_len_is(s: Seq<u16>, k: nat)
    requires
        k <= s.len(),
        forall|j: int| 0 <= j < k ==> s[j] != 10,
        k < s.len() ==> s[k as int] == 10,
    ensures
        line_len(s) == k,
    decreases s.len(),
{
    if s.len() == 0 {
    } else if s[0] == 10 {
        assert(k == 0);
    } else {
        assert(s[0] != 10);
        assert(k >= 1);
        assert forall|j: int| 0 <= j < k - 1 implies s.skip(1)[j] != 10 by {
            assert(s.skip(1)[j] == s[j + 1]);
        }
        if k - 1 < s.skip(1).len() {
            assert(s.skip(1)[k - 1] == s[k as int]);
        }
        lemma_line_len_is(s.skip(1), (k - 1) as nat);
    }
}

/// The code of a hexadecimal digit, lower case.
fn hex_digit(d: u16) -> (c: u16)
    requires
        d < 16,
    ensures
        c == hex_digit_char(d),
{
    if d < 10 {
        0x30 + d
    } else {
        0x57 + d
    }
}

/// Parse a line of character codes as a 16-bit hexadecimal number: an
/// optional leading plus sign, then one or more hexadecimal digits
/// whose value fits in 16 bits; anything else fails, a minus sign
/// included, as for any unsigned parse. Public so that an observer can
/// report a failed parse exactly as the machine decides it.
pub fn parse_hex_word(line: &Vec<u16>) -> (r: Option<u16>)
    ensures
        r == parse_hex(line@),
{
    let mut i: usize = 0;
    if line.len() > 0 && line[0] == 0x2b {
        i = 1;
    }
    proof {
        assert(line@.skip(0) =~= line@);
    }
    if i == line.len() {
        // an empty line, or a sign with no digits after it
        return None;
    }
    let mut acc: u16 = 0;
    while i < line.len()
        invariant
            i <= line.len(),
            parse_hex_rec(line@.skip(i as int), acc) == parse_hex(line@),
        decreases line.len() - i,
    {
        let c: u16 = line[i];
        proof {
            assert(line@.skip(i as int)[0] == c);
        }
        let is_digit: bool = (0x30 <= c && c <= 0x39) || (0x61 <= c && c <= 0x66) || (0x41 <= c
            && c <= 0x46);
        if !is_digit {
            return None;
        }
        if acc > 0xfff {
            return None;
        }
        let d: u16 = if c <= 0x39 {
            c - 0x30
        } else if c >= 0x61 {
            c - 0x57
        } else {
            c - 0x37
        };
        proof {
            assert(d == hex_val(c));
            assert(line@.skip(i as int).skip(1) =~= line@.skip(i as int + 1));
        }
        acc = acc * 16 + d;
        i = i + 1;
    }
    proof {
        assert(line@.skip(line@.len() as int) =~= Seq::<u16>::empty());
    }
    Some(acc)
}

/// A vector of `n` zero words.
fn zero_words(n: usize) -> (v: Vec<u16>)
    ensures
        v@ == Seq::new(n as nat, |i: int| 0u16),
{
    let mut v: Vec<u16> = Vec::new();
    let mut i: usize = 0;
    while i < n
        invariant
            i <= n,
            v@ == Seq::new(i as nat, |j: int| 0u16),
        decreases n - i,
    {
        v.push(0);
        i = i + 1;
        proof {
            assert(v@ =~= Seq::new(i as nat, |j: int| 0u16));
        }
    }
    v
}

impl Machine {
    /// Well-formedness: the memory covers the full address space and the
    /// register file has all ten registers. `new` establishes it and
    /// every method keeps it.
    pub open spec fn wf(&self) -> bool {
        self@.inv()
    }

    /// Create an initialized machine: all memory and registers zero, not
    /// running, console queues empty.
    pub fn new() -> (m: Machine)
        ensures
            m.wf(),
            m@ == init_state(),
    {
        let m = Machine {
            mem: zero_words(MEM_SIZE),
            reg: zero_words(NUM_REG),
            running: false,
            input: Vec::new(),
            output: Vec::new(),
        };
        proof {
            assert(m@ =~= init_state());
        }
        m
    }

    /// Whether the run loop would go on: true between `run` starting and
    /// a HALT trap.
    pub fn is_running(&self) -> (r: bool)
        ensures
            r == self@.running,
    {
        self.running
    }

    /// The memory's and register file's sizes are right. True of every
    /// machine `new` made; a caller outside the proofs can check it.
    pub fn is_well_formed(&self) -> (r: bool)
        ensures
            r == self.wf(),
    {
        self.mem.len() == MEM_SIZE && self.reg.len() == NUM_REG
    }

    /// Read the memory word at `address`.
    pub fn memr(&self, address: u16) -> (r: u16)
        requires
            self.wf(),
        ensures
            r == self@.mem[address as int],
    {
        self.mem[address as usize]
    }

    /// Write `value` to the memory word at `address`.
    pub fn memw(&mut self, address: u16, value: u16)
        requires
            old(self).wf(),
        ensures
            final(self).wf(),
            final(self)@ == (State { mem: old(self)@.mem.update(address as int, value), ..old(self)@ }),
    {
        self.mem.set(address as usize, value);
    }

    /// Read register `r`.
    pub fn regr(&self, r: u16) -> (v: u16)
        requires
            self.wf(),
            r < NUM_REG as u16,
        ensures
            v == self@.reg[r as int],
    {
        self.reg[r as usize]
    }

    /// Write `value` to register `r`.
    pub fn regw(&mut self, r: u16, value: u16)
        requires
            old(self).wf(),
            r < NUM_REG as u16,
        ensures
            final(self).wf(),
            final(self)@ == (State { reg: old(self)@.reg.update(r as int, value), ..old(self)@ }),
    {
        self.reg.set(r as usize, value);
    }

    /// Append one word to the pending console input.
    pub fn push_input(&mut self, w: u16)
        requires
            old(self).wf(),
        ensures
            final(self).wf(),
            final(self)@ == (State { input: old(self)@.input.push(w), ..old(self)@ }),
    {
        self.input.push(w);
    }

    /// The number of pending console input words.
    pub fn input_len(&self) -> (n: usize)
        ensures
            n == self@.input.len(),
    {
        self.input.len()
    }

    /// Update the condition register from the value register `r` holds:
    /// ZERO for zero, NEG when bit 15 is set, POS otherwise.
    pub fn update_rcnd(&mut self, r: u16)
        requires
            old(self).wf(),
            r < NUM_REG as u16,
        ensures
            final(self).wf(),
            final(self)@ == (State {
                reg: old(self)@.reg.update(RCND as int, flag_of(old(self)@.reg[r as int])),
                ..old(self)@
            }),
    {
        let value = self.regr(r);
        proof {
            assert((value >> 15u16) != 0 <==> value >= 0x8000) by (bit_vector);
        }
        if value == 0 {
            self.regw(RCND, FL_ZRO);
        } else if (value >> 15u16) != 0 {
            self.regw(RCND, FL_NEG);
        } else {
            self.regw(RCND, FL_POS);
        }
    }

    /// The opcode: bits 15 through 12 of the instruction word.
    pub fn opcode(instr: u16) -> (r: Opcode)
        ensures
            r == decode_opcode(instr),
    {
        let v = instr >> 12u16;
        match v {
            0x0 => Opcode::Br,
            0x1 => Opcode::Add,
            0x2 => Opcode::Ld,
            0x3 => Opcode::St,
            0x4 => Opcode::Jsr,
            0x5 => Opcode::And,
            0x6 => Opcode::Ldr,
            0x7 => Opcode::Str,
            0x8 => Opcode::Rti,
            0x9 => Opcode::Not,
            0xa => Opcode::Ldi,
            0xb => Opcode::Sti,
            0xc => Opcode::Jmp,
            0xd => Opcode::Reserved,
            0xe => Opcode::Lea,
            _ => Opcode::Trap,
        }
    }

    /// The destination-register field: bits 11 through 9.
    pub fn dstreg(instr: u16) -> (r: u16)
        ensures
            r == dst_bits(instr),
            r < 8,
    {
        proof {
            assert((instr >> 9u16) & 0x7 < 8) by (bit_vector);
        }
        (instr >> 9u16) & 0x7
    }

    /// The first source-register field: bits 8 through 6.
    pub fn srcreg1(instr: u16) -> (r: u16)
        ensures
            r == sr1_bits(instr),
            r < 8,
    {
        proof {
            assert((instr >> 6u16) & 0x7 < 8) by (bit_vector);
        }
        (instr >> 6u16) & 0x7
    }

    /// The second source-register field: bits 2 through 0.
    pub fn srcreg2(instr: u16) -> (r: u16)
        ensures
            r == sr2_bits(instr),
            r < 8,
    {
        proof {
            assert(instr & 0x7 < 8) by (bit_vector);
        }
        instr & 0x7
    }

    /// The trap vector of a TRAP instruction: its low eight bits, as the
    /// typed vector.
    pub fn trapvec(instr: u16) -> (r: TrapVec)
        ensures
            r == decode_trap(trap_bits(instr)),
    {
        let v = instr & 0xff;
        match v {
            0x20 => TrapVec::Tgetc,
            0x21 => TrapVec::Tputc,
            0x22 => TrapVec::Tputs,
            0x23 => TrapVec::Tin,
            0x24 => TrapVec::Tputsp,
            0x25 => TrapVec::Thalt,
            0x26 => TrapVec::Tinu16,
            0x27 => TrapVec::Toutu16,
            _ => TrapVec::Unknown,
        }
    }

    /// Whether bit `bit` of `value` is set.
    pub fn is_bit_set(value: u16, bit: u16) -> (r: bool)
        requires
            bit < 16,
        ensures
            r == bit_set(value, bit),
    {
        ((value >> bit) & 0x1) != 0
    }

    /// Sign-extend the `bitsize`-bit field `value` to a 16-bit
    /// two's-complement word. The field must already fit in `bitsize`
    /// bits; handing anything wider over is a programming error, which
    /// the precondition rules out.
    pub fn sign_extend_immediate(value: u16, bitsize: u16) -> (r: u16)
        requires
            1 <= bitsize < 16,
            value >> bitsize == 0,
        ensures
            r == sext(value, bitsize),
    {
        if Machine::is_bit_set(value, bitsize - 1) {
            value | (0xffffu16 << bitsize)
        } else {
            value
        }
    }

    /// ADD: the destination takes the first source plus either the
    /// sign-extended five-bit immediate (bit 5 set) or the second
    /// source, wrapping modulo 65536; the flags update.
    pub fn opc_add(&mut self, instr: u16)
        requires
            old(self).wf(),
        ensures
            final(self).wf(),
            final(self)@ == add_step(old(self)@, instr),
    {
        let dr = Machine::dstreg(instr);
        let value1 = self.regr(Machine::srcreg1(instr));
        let value2 = if Machine::is_bit_set(instr, 5) {
            proof {
                lemma_mask_fits(instr);
            }
            Machine::sign_extend_immediate(instr & 0x1f, 5)
        } else {
            self.regr(Machine::srcreg2(instr))
        };
        let value = value1.wrapping_add(value2);
        self.regw(dr, value);
        self.update_rcnd(dr);
    }

    /// AND: the destination takes the first source bitwise-and either
    /// the sign-extended five-bit immediate (bit 5 set) or the second
    /// source; the flags update.
    pub fn opc_and(&mut self, instr: u16)
        requires
            old(self).wf(),
        ensures
            final(self).wf(),
            final(self)@ == and_step(old(self)@, instr),
    {
        let dr = Machine::dstreg(instr);
        let value1 = self.regr(Machine::srcreg1(instr));
        let value2 = if Machine::is_bit_set(instr, 5) {
            proof {
                lemma_mask_fits(instr);
            }
            Machine::sign_extend_immediate(instr & 0x1f, 5)
        } else {
            self.regr(Machine::srcreg2(instr))
        };
        let value = value1 & value2;
        self.regw(dr, value);
        self.update_rcnd(dr);
    }

    /// LD: the destination takes the memory word at the
    /// program-counter-relative address; the flags update.
    pub fn opc_ld(&mut self, instr: u16)
        requires
            old(self).wf(),
        ensures
            final(self).wf(),
            final(self)@ == ld_step(old(self)@, instr),
    {
        let dr = Machine::dstreg(instr);
        proof {
            lemma_mask_fits(instr);
        }
        let offset9 = Machine::sign_extend_immediate(instr & 0x1ff, 9);
        let addr = self.regr(RPC).wrapping_add(offset9);
        let value = self.memr(addr);
        self.regw(dr, value);
        self.update_rcnd(dr);
    }

    /// LDI: the destination takes the memory word the
    /// program-counter-relative cell points at; the flags update.
    pub fn opc_ldi(&mut self, instr: u16)
        requires
            old(self).wf(),
        ensures
            final(self).wf(),
            final(self)@ == ldi_step(old(self)@, instr),
    {
        let dr = Machine::dstreg(instr);
        proof {
            lemma_mask_fits(instr);
        }
        let offset9 = Machine::sign_extend_immediate(instr & 0x1ff, 9);
        let addr = self.regr(RPC).wrapping_add(offset9);
        let value = self.memr(self.memr(addr));
        self.regw(dr, value);
        self.update_rcnd(dr);
    }

    /// LDR: the destination takes the memory word at the first source
    /// plus the sign-extended six-bit offset; the flags update.
    pub fn opc_ldr(&mut self, instr: u16)
        requires
            old(self).wf(),
        ensures
            final(self).wf(),
            final(self)@ == ldr_step(old(self)@, instr),
    {
        let dr = Machine::dstreg(instr);
        let sr1 = Machine::srcreg1(instr);
        proof {
            lemma_mask_fits(instr);
        }
        let offset6 = Machine::sign_extend_immediate(instr & 0x3f, 6);
        let addr = self.regr(sr1).wrapping_add(offset6);
        let value = self.memr(addr);
        self.regw(dr, value);
        self.update_rcnd(dr);
    }

    /// LEA: the destination takes the program-counter-relative address
    /// itself; the flags update.
    pub fn opc_lea(&mut self, instr: u16)
        requires
            old(self).wf(),
        ensures
            final(self).wf(),
            final(self)@ == lea_step(old(self)@, instr),
    {
        let dr = Machine::dstreg(instr);
        proof {
            lemma_mask_fits(instr);
        }
        let offset9 = Machine::sign_extend_immediate(instr & 0x1ff, 9);
        let addr = self.regr(RPC).wrapping_add(offset9);
        self.regw(dr, addr);
        self.update_rcnd(dr);
    }

    /// NOT: the destination takes the bitwise complement of the first
    /// source; the flags update.
    pub fn opc_not(&mut self, instr: u16)
        requires
            old(self).wf(),
        ensures
            final(self).wf(),
            final(self)@ == not_step(old(self)@, instr),
    {
        let dr = Machine::dstreg(instr);
        let sr1 = Machine::srcreg1(instr);
        let value = !self.regr(sr1);
        self.regw(dr, value);
        self.update_rcnd(dr);
    }

    /// ST: the destination register's value goes to the memory word at
    /// the program-counter-relative address.
    pub fn opc_st(&mut self, instr: u16)
        requires
            old(self).wf(),
        ensures
            final(self).wf(),
            final(self)@ == st_step(old(self)@, instr),
    {
        let dr = Machine::dstreg(instr);
        proof {
            lemma_mask_fits(instr);
        }
        let offset9 = Machine::sign_extend_immediate(instr & 0x1ff, 9);
        let addr = self.regr(RPC).wrapping_add(offset9);
        let value = self.regr(dr);
        self.memw(addr, value);
    }

    /// STI: the destination register's value goes to the memory word the
    /// program-counter-relative cell points at.
    pub fn opc_sti(&mut self, instr: u16)
        requires
            old(self).wf(),
        ensures
            final(self).wf(),
            final(self)@ == sti_step(old(self)@, instr),
    {
        let dr = Machine::dstreg(instr);
        proof {
            lemma_mask_fits(instr);
        }
        let offset9 = Machine::sign_extend_immediate(instr & 0x1ff, 9);
        let addr = self.regr(RPC).wrapping_add(offset9);
        let value = self.regr(dr);
        let addri = self.memr(addr);
        self.memw(addri, value);
    }

    /// STR: the destination register's value goes to the memory word at
    /// the first source plus the sign-extended six-bit offset.
    pub fn opc_str(&mut self, instr: u16)
        requires
            old(self).wf(),
        ensures
            final(self).wf(),
            final(self)@ == str_step(old(self)@, instr),
    {
        let dr = Machine::dstreg(instr);
        let sr1 = Machine::srcreg1(instr);
        proof {
            lemma_mask_fits(instr);
        }
        let offset6 = Machine::sign_extend_immediate(instr & 0x3f, 6);
        let addr = self.regr(sr1).wrapping_add(offset6);
        let value = self.regr(dr);
        self.memw(addr, value);
    }

    /// JMP: the program counter takes the first source register.
    pub fn opc_jmp(&mut self, instr: u16)
        requires
            old(self).wf(),
        ensures
            final(self).wf(),
            final(self)@ == jmp_step(old(self)@, instr),
    {
        let sr1 = Machine::srcreg1(instr);
        let addr = self.regr(sr1);
        self.regw(RPC, addr);
    }

    /// JSR: register 7 takes the pre-jump program counter; the counter
    /// then takes the sign-extended eleven-bit immediate (bit 11 set) or
    /// the first source register, read after the save.
    pub fn opc_jsr(&mut self, instr: u16)
        requires
            old(self).wf(),
        ensures
            final(self).wf(),
            final(self)@ == jsr_step(old(self)@, instr),
    {
        let pc = self.regr(RPC);
        self.regw(7, pc);
        let addr = if Machine::is_bit_set(instr, 11) {
            proof {
                lemma_mask_fits(instr);
            }
            Machine::sign_extend_immediate(instr & 0x7ff, 11)
        } else {
            self.regr(Machine::srcreg1(instr))
        };
        self.regw(RPC, addr);
    }

    /// BR: the program counter moves by the sign-extended nine-bit
    /// offset exactly when the condition register meets the
    /// branch-condition mask in bits 11 through 9.
    pub fn opc_br(&mut self, instr: u16)
        requires
            old(self).wf(),
        ensures
            final(self).wf(),
            final(self)@ == br_step(old(self)@, instr),
    {
        let branch_cond = Machine::dstreg(instr);
        proof {
            lemma_mask_fits(instr);
        }
        let offset9 = Machine::sign_extend_immediate(instr & 0x1ff, 9);
        let cond = self.regr(RCND);
        if (cond & branch_cond) != 0 {
            let addr = self.regr(RPC).wrapping_add(offset9);
            self.regw(RPC, addr);
        }
    }

    /// TRAP: dispatch on the trap vector. The vectors for echoed input
    /// and packed strings, and every vector outside the known set, are
    /// only reported as reserved: the state does not change.
    pub fn opc_trap(&mut self, instr: u16)
        requires
            old(self).wf(),
        ensures
            final(self).wf(),
            final(self)@ == trap_step(old(self)@, instr),
    {
        let trapvec = Machine::trapvec(instr);
        match trapvec {
            TrapVec::Tgetc => self.trap_tgetc(),
            TrapVec::Tputc => self.trap_tputc(),
            TrapVec::Tputs => self.trap_tputs(),
            TrapVec::Thalt => self.trap_thalt(),
            TrapVec::Tinu16 => self.trap_tinu16(),
            TrapVec::Toutu16 => self.trap_toutu16(),
            TrapVec::Tin | TrapVec::Tputsp | TrapVec::Unknown => {},
        }
    }

    /// Execute one already-fetched instruction, the program counter
    /// already advanced: dispatch on the opcode. The two unimplemented
    /// opcodes are only reported: the state does not change.
    pub fn dispatch(&mut self, instr: u16)
        requires
            old(self).wf(),
        ensures
            final(self).wf(),
            final(self)@ == exec_instr(old(self)@, instr),
    {
        let opcode = Machine::opcode(instr);
        match opcode {
            Opcode::Add => self.opc_add(instr),
            Opcode::And => self.opc_and(instr),
            Opcode::Ld => self.opc_ld(instr),
            Opcode::Ldi => self.opc_ldi(instr),
            Opcode::Ldr => self.opc_ldr(instr),
            Opcode::Lea => self.opc_lea(instr),
            Opcode::Not => self.opc_not(instr),
            Opcode::St => self.opc_st(instr),
            Opcode::Sti => self.opc_sti(instr),
            Opcode::Str => self.opc_str(instr),
            Opcode::Jmp => self.opc_jmp(instr),
            Opcode::Jsr => self.opc_jsr(instr),
            Opcode::Br => self.opc_br(instr),
            Opcode::Trap => self.opc_trap(instr),
            Opcode::Rti | Opcode::Reserved => {},
        }
    }

    /// One machine step: fetch the word at the program counter, advance
    /// the counter with wraparound, then execute the word.
    pub fn step(&mut self)
        requires
            old(self).wf(),
        ensures
            final(self).wf(),
            final(self)@ == step_spec(old(self)@),
    {
        let pc = self.regr(RPC);
        let instr = self.memr(pc);
        self.regw(RPC, pc.wrapping_add(1));
        self.dispatch(instr);
    }

    /// Enter the run loop's starting state: the program counter at the
    /// origin and the running flag raised.
    pub fn start(&mut self)
        requires
            old(self).wf(),
        ensures
            final(self).wf(),
            final(self)@ == start_of(old(self)@),
    {
        self.regw(RPC, PROG_START);
        self.running = true;
        proof {
            assert(self@ =~= start_of(old(self)@));
        }
    }

    /// Run the machine: the program counter starts at the origin, the
    /// running flag rises, and the machine steps until a HALT trap
    /// lowers the flag or `max_steps` steps have run. Returns the number
    /// of steps taken; a return below `max_steps` means the machine
    /// halted.
    pub fn run(&mut self, max_steps: usize) -> (steps: usize)
        requires
            old(self).wf(),
        ensures
            final(self).wf(),
            steps <= max_steps,
            final(self)@ == run_n(start_of(old(self)@), steps as nat),
            forall|k: nat| k < steps ==> run_n(start_of(old(self)@), k).running,
            steps < max_steps ==> !final(self)@.running,
    {
        self.start();
        let ghost s0 = start_of(old(self)@);
        let mut steps: usize = 0;
        while self.running && steps < max_steps
            invariant
                self.wf(),
                steps <= max_steps,
                self@ == run_n(s0, steps as nat),
                forall|k: nat| k < steps ==> run_n(s0, k).running,
            decreases max_steps - steps,
        {
            proof {
                lemma_run_n_snoc(s0, steps as nat);
            }
            self.step();
            steps = steps + 1;
        }
        steps
    }

    /// Load a program image: its bytes pair into words, low byte first
    /// (little-endian), an odd trailing byte making a final word on its
    /// own, and the words land consecutively at the origin. Every other
    /// memory word keeps its value. The image must fit between the
    /// origin and the top of memory.
    pub fn load(&mut self, image: &Vec<u8>)
        requires
            old(self).wf(),
            image@.len() <= 2 * (MEM_SIZE - PROG_START as int),
        ensures
            final(self).wf(),
            final(self)@ == load_spec(old(self)@, image@),
    {
        let n_pairs: usize = image.len() / 2;
        let mut i: usize = 0;
        while i < n_pairs
            invariant
                self.wf(),
                i <= n_pairs,
                n_pairs == image@.len() / 2,
                image@.len() <= 2 * (MEM_SIZE - PROG_START as int),
                self@.reg == old(self)@.reg,
                self@.running == old(self)@.running,
                self@.input == old(self)@.input,
                self@.output == old(self)@.output,
                forall|a: int|
                    0 <= a < MEM_SIZE && !(PROG_START <= a < PROG_START + i) ==> self@.mem[a]
                        == old(self)@.mem[a],
                forall|a: int|
                    PROG_START <= a < PROG_START + i ==> self@.mem[a] == image_word(
                        image@,
                        a - PROG_START,
                    ),
            decreases n_pairs - i,
        {
            let lo: u16 = image[2 * i] as u16;
            let hi: u16 = image[2 * i + 1] as u16;
            self.mem.set(PROG_START as usize + i, lo + hi * 256);
            i = i + 1;
        }
        if image.len() % 2 == 1 {
            let lo: u16 = image[image.len() - 1] as u16;
            self.mem.set(PROG_START as usize + n_pairs, lo);
        }
        proof {
            assert forall|a: int| 0 <= a < MEM_SIZE implies self@.mem[a] == load_spec(
                old(self)@,
                image@,
            ).mem[a] by {
                if PROG_START <= a < PROG_START + image_words(image@.len()) {
                    assert(self@.mem[a] == image_word(image@, a - PROG_START));
                }
            }
            assert(self@.mem =~= load_spec(old(self)@, image@).mem);
            assert(self@ =~= load_spec(old(self)@, image@));
        }
    }

    /// GETC: consume one pending input word and put its low byte,
    /// zero-extended, into register 0. With no pending input, register 0
    /// takes 0, as a read at end of input does.
    pub fn trap_tgetc(&mut self)
        requires
            old(self).wf(),
        ensures
            final(self).wf(),
            final(self)@ == getc_step(old(self)@),
    {
        if self.input.len() > 0 {
            let c = self.input.remove(0);
            proof {
                assert(old(self)@.input.remove(0) =~= old(self)@.input.skip(1));
            }
            self.regw(0, c & 0xff);
        } else {
            self.regw(0, 0);
        }
    }

    /// PUTC: the low byte of register 0 goes to the output.
    pub fn trap_tputc(&mut self)
        requires
            old(self).wf(),
        ensures
            final(self).wf(),
            final(self)@ == putc_step(old(self)@),
    {
        let value = self.regr(0);
        self.output.push(value & 0xff);
    }

    /// PUTS: the memory words starting at the address in register 0, up
    /// to the first zero word, go to the output, addresses wrapping. A
    /// full sweep of memory without a zero word ends the scan.
    pub fn trap_tputs(&mut self)
        requires
            old(self).wf(),
        ensures
            final(self).wf(),
            final(self)@ == puts_step(old(self)@),
    {
        let start = self.regr(0);
        let mut addr: u16 = start;
        let mut i: usize = 0;
        while i < MEM_SIZE && self.mem[addr as usize] != 0
            invariant
                self.wf(),
                i <= MEM_SIZE,
                self@.mem == old(self)@.mem,
                self@.reg == old(self)@.reg,
                self@.running == old(self)@.running,
                self@.input == old(self)@.input,
                old(self)@.output + puts_seq(old(self)@.mem, start, MEM_SIZE as nat) == self@.output
                    + puts_seq(self@.mem, addr, (MEM_SIZE - i) as nat),
            decreases MEM_SIZE - i,
        {
            let ghost a0 = addr;
            let ghost f0 = (MEM_SIZE - i) as nat;
            let value = self.mem[addr as usize];
            self.output.push(value);
            addr = addr.wrapping_add(1);
            i = i + 1;
            proof {
                assert(puts_seq(self@.mem, a0, f0) == seq![self@.mem[a0 as int]] + puts_seq(
                    self@.mem,
                    wrap_add(a0, 1),
                    (f0 - 1) as nat,
                ));
                assert(self@.output + puts_seq(self@.mem, addr, (MEM_SIZE - i) as nat)
                    =~= old(self)@.output + puts_seq(old(self)@.mem, start, MEM_SIZE as nat));
            }
        }
        proof {
            assert(puts_seq(self@.mem, addr, (MEM_SIZE - i) as nat) =~= Seq::<u16>::empty());
            assert(self@.output =~= old(self)@.output + puts_seq(
                old(self)@.mem,
                start,
                MEM_SIZE as nat,
            ));
            assert(self@ =~= puts_step(old(self)@));
        }
    }

    /// HALT: lower the running flag; the run loop exits.
    pub fn trap_thalt(&mut self)
        requires
            old(self).wf(),
        ensures
            final(self).wf(),
            final(self)@ == halt_step(old(self)@),
    {
        self.running = false;
    }

    /// INU16: consume one line of pending input (its terminating newline
    /// included) and parse it as hexadecimal. On success register 0
    /// takes the value; on failure no register changes.
    pub fn trap_tinu16(&mut self)
        requires
            old(self).wf(),
        ensures
            final(self).wf(),
            final(self)@ == inu16_step(old(self)@),
    {
        let mut k: usize = 0;
        while k < self.input.len() && self.input[k] != 10
            invariant
                self@ == old(self)@,
                self.wf(),
                k <= self.input.len(),
                forall|j: int| 0 <= j < k ==> self@.input[j] != 10,
            decreases self.input.len() - k,
        {
            k = k + 1;
        }
        proof {
            lemma_line_len_is(self@.input, k as nat);
        }
        let mut line: Vec<u16> = Vec::new();
        let mut j: usize = 0;
        while j < k
            invariant
                self@ == old(self)@,
                self.wf(),
                j <= k,
                k <= self.input.len(),
                line@ == self@.input.subrange(0, j as int),
            decreases k - j,
        {
            line.push(self.input[j]);
            proof {
                assert(line@ =~= self@.input.subrange(0, j + 1));
            }
            j = j + 1;
        }
        proof {
            assert(line@ == self@.input.take(k as int));
        }
        let parsed = parse_hex_word(&line);
        let start_idx: usize = if k < self.input.len() {
            k + 1
        } else {
            k
        };
        let mut rest: Vec<u16> = Vec::new();
        let mut j2: usize = start_idx;
        while j2 < self.input.len()
            invariant
                self@ == old(self)@,
                self.wf(),
                start_idx <= j2 <= self.input.len(),
                rest@ == self@.input.subrange(start_idx as int, j2 as int),
            decreases self.input.len() - j2,
        {
            rest.push(self.input[j2]);
            proof {
                assert(rest@ =~= self@.input.subrange(start_idx as int, j2 + 1));
            }
            j2 = j2 + 1;
        }
        proof {
            if (k as int) < old(self)@.input.len() {
                assert(rest@ =~= old(self)@.input.skip(k as int + 1));
            } else {
                assert(rest@ =~= Seq::<u16>::empty());
            }
        }
        self.input = rest;
        match parsed {
            Some(v) => {
                self.regw(0, v);
            },
            None => {},
        }
        proof {
            assert(self@ =~= inu16_step(old(self)@));
        }
    }

    /// OUTU16: register 0, written as hexadecimal text, goes to the
    /// output.
    pub fn trap_toutu16(&mut self)
        requires
            old(self).wf(),
        ensures
            final(self).wf(),
            final(self)@ == outu16_step(old(self)@),
    {
        let value = self.regr(0);
        proof {
            lemma_nibbles(value);
        }
        self.output.push(0x30);
        self.output.push(0x78);
        self.output.push(hex_digit(value >> 12u16));
        self.output.push(hex_digit((value >> 8u16) & 0xf));
        self.output.push(hex_digit((value >> 4u16) & 0xf));
        self.output.push(hex_digit(value & 0xf));
        self.output.push(10);
        proof {
            assert(self@.output =~= old(self)@.output + hex_chars(old(self)@.reg[0]));
            assert(self@ =~= outu16_step(old(self)@));
        }
    }

    /// Take the console output gathered so far, leaving the log empty.
    pub fn take_output(&mut self) -> (out: Vec<u16>)
        requires
            old(self).wf(),
        ensures
            final(self).wf(),
            out@ == old(self)@.output,
            final(self)@ == (State { output: Seq::empty(), ..old(self)@ }),
    {
        let mut out: Vec<u16> = Vec::new();
        core::mem::swap(&mut out, &mut self.output);
        out
    }
}

} // verus!
