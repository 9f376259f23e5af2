//! The mathematical model of the machine: its state as plain sequences,
//! the field decoders of an instruction word, sign extension, wraparound
//! addition, and the condition-flag rule.

use vstd::prelude::*;

verus! {

/// Number of memory words: the full 16-bit address space.
pub const MEM_SIZE: usize = 0x10000;

/// Number of registers: eight general registers, the program counter,
/// and the condition register.
pub const NUM_REG: usize = 10;

/// Register number of the program counter.
pub const RPC: u16 = 8;

/// Register number of the condition register.
pub const RCND: u16 = 9;

/// Condition flag: last result was strictly positive (as a signed word).
pub const FL_POS: u16 = 1;

/// Condition flag: last result was zero.
pub const FL_ZRO: u16 = 2;

/// Condition flag: last result was negative (bit 15 set).
pub const FL_NEG: u16 = 4;

/// Fixed origin: program images are loaded here and execution starts here.
pub const PROG_START: u16 = 0x3000;

/// The machine state as the contracts speak of it: memory and registers
/// as sequences of 16-bit words, the running flag, and the console
/// modelled as a queue of pending input words and a log of output words.
#[verifier::ext_equal]
pub ghost struct State {
    pub mem: Seq<u16>,
    pub reg: Seq<u16>,
    pub running: bool,
    pub input: Seq<u16>,
    pub output: Seq<u16>,
}

impl State {
    /// Well-formedness: the memory covers the full address space and the
    /// register file has all ten registers.
    pub open spec fn inv(self) -> bool {
        &&& self.mem.len() == MEM_SIZE
        &&& self.reg.len() == NUM_REG
    }
}

/// The state of a freshly created machine: everything zero, not running,
/// console queues empty.
pub open spec fn init_state() -> State {
    State {
        mem: Seq::new(MEM_SIZE as nat, |i: int| 0u16),
        reg: Seq::new(NUM_REG as nat, |i: int| 0u16),
        running: false,
        input: Seq::empty(),
        output: Seq::empty(),
    }
}

/// The state at the top of the run loop: the program counter at the
/// origin and the running flag raised.
pub open spec fn start_of(s: State) -> State {
    State { reg: s.reg.update(RPC as int, PROG_START), running: true, ..s }
}

/// Addition of 16-bit words wraps modulo 65536.
pub open spec fn wrap_add(a: u16, b: u16) -> u16 {
    ((a + b) % 0x10000) as u16
}

/// The opcode: bits 15 through 12 of the instruction word.
pub open spec fn opcode_bits(w: u16) -> u16 {
    w >> 12u16
}

/// The destination-register field: bits 11 through 9. For a branch these
/// same bits hold the branch-condition mask.
pub open spec fn dst_bits(w: u16) -> u16 {
    (w >> 9u16) & 0x7
}

/// The first source-register field: bits 8 through 6.
pub open spec fn sr1_bits(w: u16) -> u16 {
    (w >> 6u16) & 0x7
}

/// The second source-register field: bits 2 through 0.
pub open spec fn sr2_bits(w: u16) -> u16 {
    w & 0x7
}

/// The trap vector: the low eight bits of the instruction word.
pub open spec fn trap_bits(w: u16) -> u16 {
    w & 0xff
}

/// Whether bit `b` of `w` is set.
pub open spec fn bit_set(w: u16, b: u16) -> bool {
    (w >> b) & 1 != 0
}

/// Sign extension of an `n`-bit field `v` (already masked to `n` bits)
/// to a 16-bit two's-complement word: if the field's sign bit is set,
/// all bits from position `n` upward are filled with ones.
pub open spec fn sext(v: u16, n: u16) -> u16
    recommends
        1 <= n < 16,
        v >> n == 0,
{
    if bit_set(v, (n - 1) as u16) {
        v | (0xffffu16 << n)
    } else {
        v
    }
}

/// The condition flag a value produces: ZERO for zero, NEG when bit 15
/// is set, POS otherwise. Exactly one flag is ever set.
pub open spec fn flag_of(x: u16) -> u16 {
    if x == 0 {
        FL_ZRO
    } else if x >= 0x8000 {
        FL_NEG
    } else {
        FL_POS
    }
}

/// The value of a 16-bit word read as a signed two's-complement integer.
pub open spec fn signed16(x: u16) -> int {
    if x < 0x8000 {
        x as int
    } else {
        x - 0x10000
    }
}

} // verus!
