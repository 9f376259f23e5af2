use lc3vm::state::{FL_POS, RCND, RPC};
use lc3vm::Machine;

#[test]
fn getc_takes_one_input_word() {
    let mut m = Machine::new();
    m.push_input(0x41);
    m.push_input(0x42);
    m.dispatch(0xF020);
    assert_eq!(m.regr(0), 0x41);
    assert_eq!(m.input_len(), 1);
    m.dispatch(0xF020);
    assert_eq!(m.regr(0), 0x42);
    assert_eq!(m.input_len(), 0);
}

#[test]
fn getc_keeps_only_the_low_byte() {
    let mut m = Machine::new();
    m.push_input(0x0141);
    m.dispatch(0xF020);
    assert_eq!(m.regr(0), 0x41);
}

#[test]
fn getc_at_end_of_input_reads_zero() {
    let mut m = Machine::new();
    m.regw(0, 0x1234);
    m.dispatch(0xF020);
    assert_eq!(m.regr(0), 0);
}

#[test]
fn putc_writes_low_byte_of_r0() {
    let mut m = Machine::new();
    m.regw(0, 0x0248);
    m.dispatch(0xF021);
    assert_eq!(m.take_output(), vec![0x48]);
}

#[test]
fn puts_writes_words_until_zero() {
    let mut m = Machine::new();
    m.memw(0x5000, 'H' as u16);
    m.memw(0x5001, 'i' as u16);
    m.memw(0x5002, 0x0000);
    m.memw(0x5003, '!' as u16);
    m.regw(0, 0x5000);
    m.dispatch(0xF022);
    assert_eq!(m.take_output(), vec!['H' as u16, 'i' as u16]);
}

#[test]
fn puts_empty_string_writes_nothing() {
    let mut m = Machine::new();
    m.regw(0, 0x5000);
    m.dispatch(0xF022);
    assert_eq!(m.take_output(), vec![]);
}

#[test]
fn puts_wraps_at_top_of_memory() {
    let mut m = Machine::new();
    m.memw(0xFFFF, 0x0031);
    m.memw(0x0000, 0x0032);
    m.memw(0x0001, 0x0000);
    m.regw(0, 0xFFFF);
    m.dispatch(0xF022);
    assert_eq!(m.take_output(), vec![0x31, 0x32]);
}

#[test]
fn halt_lowers_the_running_flag() {
    let mut m = Machine::new();
    m.load(&vec![0x25, 0xF0]);
    m.run(100);
    assert!(!m.is_running());
}

#[test]
fn inu16_parses_a_hexadecimal_line() {
    let mut m = Machine::new();
    for c in "3aF\n".bytes() {
        m.push_input(c as u16);
    }
    m.dispatch(0xF026);
    assert_eq!(m.regr(0), 0x03AF);
    assert_eq!(m.input_len(), 0);
}

#[test]
fn inu16_parses_four_digits() {
    let mut m = Machine::new();
    for c in "beef\n".bytes() {
        m.push_input(c as u16);
    }
    m.dispatch(0xF026);
    assert_eq!(m.regr(0), 0xBEEF);
}

#[test]
fn inu16_accepts_a_leading_plus_sign() {
    let mut m = Machine::new();
    for c in "+ff\n".bytes() {
        m.push_input(c as u16);
    }
    m.dispatch(0xF026);
    assert_eq!(m.regr(0), 0x00FF);
}

#[test]
fn inu16_lone_plus_sign_fails() {
    let mut m = Machine::new();
    m.regw(0, 7);
    for c in "+\n".bytes() {
        m.push_input(c as u16);
    }
    m.dispatch(0xF026);
    assert_eq!(m.regr(0), 7);
}

#[test]
fn inu16_minus_sign_fails() {
    // an unsigned parse refuses a minus sign
    let mut m = Machine::new();
    m.regw(0, 7);
    for c in "-ff\n".bytes() {
        m.push_input(c as u16);
    }
    m.dispatch(0xF026);
    assert_eq!(m.regr(0), 7);
}

#[test]
fn inu16_sign_after_digits_fails() {
    let mut m = Machine::new();
    m.regw(0, 7);
    for c in "f+f\n".bytes() {
        m.push_input(c as u16);
    }
    m.dispatch(0xF026);
    assert_eq!(m.regr(0), 7);
}

#[test]
fn inu16_without_newline_takes_the_whole_queue() {
    let mut m = Machine::new();
    for c in "ff".bytes() {
        m.push_input(c as u16);
    }
    m.dispatch(0xF026);
    assert_eq!(m.regr(0), 0x00FF);
    assert_eq!(m.input_len(), 0);
}

#[test]
fn inu16_leaves_later_lines_queued() {
    let mut m = Machine::new();
    for c in "1\n2\n".bytes() {
        m.push_input(c as u16);
    }
    m.dispatch(0xF026);
    assert_eq!(m.regr(0), 1);
    assert_eq!(m.input_len(), 2);
    m.dispatch(0xF026);
    assert_eq!(m.regr(0), 2);
    assert_eq!(m.input_len(), 0);
}

#[test]
fn inu16_failure_leaves_r0_unchanged() {
    let mut m = Machine::new();
    m.regw(0, 7);
    for c in "xy\n".bytes() {
        m.push_input(c as u16);
    }
    m.dispatch(0xF026);
    assert_eq!(m.regr(0), 7);
    // the bad line is still consumed
    assert_eq!(m.input_len(), 0);
}

#[test]
fn inu16_empty_line_fails() {
    let mut m = Machine::new();
    m.regw(0, 7);
    m.push_input(10);
    m.dispatch(0xF026);
    assert_eq!(m.regr(0), 7);
    assert_eq!(m.input_len(), 0);
}

#[test]
fn inu16_overflowing_value_fails() {
    let mut m = Machine::new();
    m.regw(0, 7);
    for c in "10000\n".bytes() {
        m.push_input(c as u16);
    }
    m.dispatch(0xF026);
    assert_eq!(m.regr(0), 7);
}

#[test]
fn inu16_empty_queue_fails() {
    let mut m = Machine::new();
    m.regw(0, 7);
    m.dispatch(0xF026);
    assert_eq!(m.regr(0), 7);
}

#[test]
fn parse_hex_word_exact_values() {
    let to_words = |s: &str| s.bytes().map(|b| b as u16).collect::<Vec<u16>>();
    assert_eq!(lc3vm::machine::parse_hex_word(&to_words("0")), Some(0));
    assert_eq!(lc3vm::machine::parse_hex_word(&to_words("ffff")), Some(0xFFFF));
    assert_eq!(lc3vm::machine::parse_hex_word(&to_words("+1A")), Some(0x1A));
    assert_eq!(lc3vm::machine::parse_hex_word(&to_words("")), None);
    assert_eq!(lc3vm::machine::parse_hex_word(&to_words("+")), None);
    assert_eq!(lc3vm::machine::parse_hex_word(&to_words("-1")), None);
    assert_eq!(lc3vm::machine::parse_hex_word(&to_words("10000")), None);
    assert_eq!(lc3vm::machine::parse_hex_word(&to_words("g")), None);
}

#[test]
fn parse_hex_word_matches_unsigned_from_str_radix() {
    for s in [
        "0", "f", "FF", "+ff", "ffff", "+ffff", "0000", "10000", "+", "-1", "-0", " f", "f ",
        "0x1", "", "f+f",
    ] {
        let words: Vec<u16> = s.bytes().map(|b| b as u16).collect();
        assert_eq!(
            lc3vm::machine::parse_hex_word(&words),
            u16::from_str_radix(s, 16).ok(),
            "input {:?}",
            s
        );
    }
}

#[test]
fn outu16_writes_hexadecimal_text() {
    let mut m = Machine::new();
    m.regw(0, 0xBEEF);
    m.dispatch(0xF027);
    let expected: Vec<u16> = "0xbeef\n".bytes().map(|b| b as u16).collect();
    assert_eq!(m.take_output(), expected);
}

#[test]
fn outu16_pads_to_four_digits() {
    let mut m = Machine::new();
    m.regw(0, 0x001A);
    m.dispatch(0xF027);
    let expected: Vec<u16> = "0x001a\n".bytes().map(|b| b as u16).collect();
    assert_eq!(m.take_output(), expected);
}

#[test]
fn inu16_and_outu16_round_trip() {
    let mut m = Machine::new();
    for c in "4a3c\n".bytes() {
        m.push_input(c as u16);
    }
    m.dispatch(0xF026);
    m.dispatch(0xF027);
    let expected: Vec<u16> = "0x4a3c\n".bytes().map(|b| b as u16).collect();
    assert_eq!(m.take_output(), expected);
}

#[test]
fn reserved_trap_vectors_change_nothing() {
    let mut m = Machine::new();
    m.regw(0, 0x1234);
    m.regw(RCND, FL_POS);
    m.regw(RPC, 0x3000);
    // IN and PUTSP are reported as reserved, as is any unknown vector
    m.dispatch(0xF023);
    m.dispatch(0xF024);
    m.dispatch(0xF000);
    m.dispatch(0xF0FF);
    assert_eq!(m.regr(0), 0x1234);
    assert_eq!(m.regr(RCND), FL_POS);
    assert_eq!(m.regr(RPC), 0x3000);
    assert!(!m.is_running());
}

#[test]
fn take_output_empties_the_log() {
    let mut m = Machine::new();
    m.regw(0, 0x30);
    m.dispatch(0xF021);
    assert_eq!(m.take_output(), vec![0x30]);
    assert_eq!(m.take_output(), vec![]);
}

#[test]
fn trap_output_gathers_across_a_run() {
    // ADD R0, R0, #10; OUTU16; HALT
    let mut m = Machine::new();
    m.load(&vec![0x2A, 0x10, 0x27, 0xF0, 0x25, 0xF0]);
    let steps = m.run(100);
    assert_eq!(steps, 3);
    let expected: Vec<u16> = "0x000a\n".bytes().map(|b| b as u16).collect();
    assert_eq!(m.take_output(), expected);
}
