use sampo::cpu::Cpu;
use sampo::report::{flag_letters, hex_byte, hex_word, printable, register_label, trace_line};
use sampo::text::{push_dec, push_hex, push_int};

#[test]
fn numbers_are_rendered_in_decimal_and_hexadecimal() {
    let mut s = String::new();
    push_dec(&mut s, 0);
    s.push(' ');
    push_dec(&mut s, 1234567890123);
    s.push(' ');
    push_int(&mut s, -42);
    s.push(' ');
    push_int(&mut s, i32::MIN);
    s.push(' ');
    push_hex(&mut s, 0xAB, 4);
    s.push(' ');
    push_hex(&mut s, 0xABCDE, 4);
    s.push(' ');
    push_hex(&mut s, 0, 1);
    s.push(' ');
    push_hex(&mut s, 0, 0);
    s.push(' ');
    push_hex(&mut s, 0x1F, 0);
    assert_eq!(s, "0 1234567890123 -42 -2147483648 00AB ABCDE 0 0 1F");
}

#[test]
fn rendering_agrees_with_the_standard_formatter() {
    for v in [0u32, 9, 10, 15, 16, 255, 256, 4095, 65535, 0x12345, u32::MAX] {
        let mut s = String::new();
        push_hex(&mut s, v, 4);
        assert_eq!(s, format!("{v:04X}"));
        let mut s = String::new();
        push_hex(&mut s, v, 2);
        assert_eq!(s, format!("{v:02X}"));
        let mut s = String::new();
        push_dec(&mut s, v as u64);
        assert_eq!(s, format!("{v}"));
    }
    for i in [0i32, 1, -1, 127, -128, 1000, i32::MAX, i32::MIN] {
        let mut s = String::new();
        push_int(&mut s, i);
        assert_eq!(s, format!("{i}"));
    }
}

#[test]
fn the_trace_line_names_the_family_of_the_instruction() {
    assert_eq!(trace_line(0x0100, 0x0645), "0100: 0645  ADD R6, R4, R5");
    assert_eq!(trace_line(0x0000, 0x4123), "0000: 4123  XOR R1, R2, R3");
    assert_eq!(trace_line(0xFFFE, 0x54FB), "FFFE: 54FB  ADDI R4, -5");
    assert_eq!(trace_line(0x0100, 0x6123), "0100: 6123  LOAD R1, (R2) func=3");
    assert_eq!(trace_line(0x0100, 0x7120), "0100: 7120  STORE R1, (R2) func=0");
    assert_eq!(trace_line(0x0100, 0x81FD), "0100: 81FD  BRANCH cond=1, offset=-3");
    assert_eq!(trace_line(0x0100, 0x9012), "0100: 9012  JUMP 012");
    assert_eq!(trace_line(0x0100, 0xA127), "0100: A127  SHIFT R1, R2, func=7");
    assert_eq!(trace_line(0x0100, 0xB120), "0100: B120  MULDIV R1, R2, func=0");
    assert_eq!(trace_line(0x0100, 0xC00B), "0100: C00B  MISC R0, R0, func=11");
    assert_eq!(trace_line(0x0100, 0xDA53), "0100: DA53  I/O R10, port=5, func=3");
    assert_eq!(trace_line(0x0100, 0xE100), "0100: E100  SYSTEM func=1");
    assert_eq!(trace_line(0x0100, 0xF407), "0100: F407  EXTENDED R4, R0, sub=7");
}

#[test]
fn the_trace_of_the_next_step_reads_the_word_at_the_program_counter() {
    let mut cpu = Cpu::new();
    cpu.write_word(0x0100, 0x5405);
    assert_eq!(cpu.trace_next(), "0100: 5405  ADDI R4, 5");
    cpu.step().unwrap();
    assert_eq!(cpu.trace_next(), "0102: 0000  ADD R0, R0, R0");
}

#[test]
fn the_short_dump_shows_three_registers_and_the_flags() {
    let mut cpu = Cpu::new();
    cpu.set_reg(4, 0x12);
    cpu.set_reg(5, 0xABCD);
    cpu.write_word(0x0100, 0xE600);
    cpu.step().unwrap();
    assert_eq!(cpu.dump_short(), "PC=0102 R4=0012 R5=ABCD R6=0000 FLAGS=20");
}

#[test]
fn the_full_dump_lists_every_register() {
    let mut cpu = Cpu::new();
    cpu.set_reg(10, 0xBEEF);
    cpu.write_word(0x0100, 0xE600);
    cpu.step().unwrap();
    assert_eq!(
        cpu.dump_state(),
        "\n=== CPU State ===\n\
         PC: 0102  Flags: 20 [--C-]\n\
         \n\
         Registers:\n\
         \x20 R 0=0000  R 1=0000  R 2=FFFE  R 3=0000\n\
         \x20 R 4=0000  R 5=0000  R 6=0000  R 7=0000\n\
         \x20 R 8=0000  R 9=0000  R10=BEEF  R11=0000\n\
         \x20 R12=0000  R13=0000  R14=0000  R15=0000\n\
         \n\
         Cycles: 1\n"
    );
}

#[test]
fn the_full_dump_shows_serial_output_escaped() {
    let mut cpu = Cpu::new();
    let bytes: Vec<u8> = vec![b'H', b'i', b'\n', b'\t', b'\r', b'"', b'\'', b'\\', 0, 0x1B, 0x7F, 0x80, 0xFF, b'~'];
    for b in &bytes {
        cpu.port_write(0x81, *b);
    }
    let shown: String = bytes.iter().map(|&b| b as char).collect();
    let expected = format!("\nSerial output:\n  \"{}\"\n", shown.escape_default());
    let dump = cpu.dump_state();
    assert!(dump.ends_with(&expected), "{dump:?}");
    assert!(dump.contains("Hi\\n\\t\\r\\\"\\'\\\\\\u{0}\\u{1b}\\u{7f}\\u{80}\\u{ff}~"));
}

#[test]
fn the_full_dump_shows_all_four_flags() {
    let mut cpu = Cpu::new();
    cpu.set_reg(4, 0xF0);
    cpu.write_word(0x0100, 0xC04D);
    cpu.step().unwrap();
    assert!(cpu.dump_state().contains("Flags: F0 [NZCV]"));
}

#[test]
fn the_memory_dump_has_sixteen_bytes_to_a_row() {
    let mut cpu = Cpu::new();
    for i in 0..40u16 {
        cpu.write_byte(0x0200 + i, i as u8);
    }
    assert_eq!(
        cpu.dump_memory(0x0200, 32),
        "Memory at 0200:\n\
         0200: 00 01 02 03 04 05 06 07 08 09 0A 0B 0C 0D 0E 0F \n\
         0210: 10 11 12 13 14 15 16 17 18 19 1A 1B 1C 1D 1E 1F \n"
    );
    assert_eq!(
        cpu.dump_memory(0x0210, 18),
        "Memory at 0210:\n\
         0210: 10 11 12 13 14 15 16 17 18 19 1A 1B 1C 1D 1E 1F \n\
         0220: 20 21 \n"
    );
    assert_eq!(cpu.dump_memory(0x0200, 0), "Memory at 0200:\n");
    assert_eq!(cpu.dump_memory(0x0200, 1), "Memory at 0200:\n0200: 00 \n");
}

#[test]
fn the_memory_dump_wraps_at_the_top_of_memory() {
    let mut cpu = Cpu::new();
    cpu.write_byte(0xFFFF, 0xAA);
    cpu.write_byte(0x0000, 0xBB);
    assert_eq!(cpu.dump_memory(0xFFFF, 2), "Memory at FFFF:\nFFFF: AA BB \n");
    let dump = cpu.dump_memory(0xFFF8, 17);
    assert!(dump.ends_with("\n0008: 00 \n"), "{dump:?}");
}

#[test]
fn the_debugger_shows_five_flags() {
    assert_eq!(flag_letters(0x00), "-----");
    assert_eq!(flag_letters(0xFF), "NZCVI");
    assert_eq!(flag_letters(0x84), "N---I");
    assert_eq!(flag_letters(0x68), "-ZC--");
}

#[test]
fn registers_are_labelled_with_their_roles() {
    assert_eq!(register_label(0), "R0/ZR");
    assert_eq!(register_label(2), "R2/SP");
    assert_eq!(register_label(10), "R10/T2");
    assert_eq!(register_label(15), "R15/S3");
    assert_eq!(register_label(16), "???");
}

#[test]
fn memory_views_show_printable_bytes_and_dots() {
    assert_eq!(printable(b'A'), 'A');
    assert_eq!(printable(b' '), ' ');
    assert_eq!(printable(b'~'), '~');
    assert_eq!(printable(0x7F), '.');
    assert_eq!(printable(0x1F), '.');
    assert_eq!(printable(0xFF), '.');
    assert_eq!(hex_byte(0x0A), "0A");
    assert_eq!(hex_word(0x00AB), "00AB");
}
