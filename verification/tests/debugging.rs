use sampo::cpu::Cpu;
use sampo::debugger::{Debugger, KeyCode, KeyOutcome, KeyPress, RunState};
use sampo::disasm::{disassemble, render_instruction};
use sampo::terminal::TerminalEmulator;

fn text_at(words: &[u16]) -> (String, u16) {
    let mut cpu = Cpu::new();
    let mut addr = 0x0200u16;
    for w in words {
        cpu.write_word(addr, *w);
        addr += 2;
    }
    disassemble(&cpu, 0x0200)
}

fn one(word: u16) -> String {
    let (text, size) = text_at(&[word]);
    assert_eq!(size, 2);
    text
}

#[test]
fn arithmetic_is_named_with_its_registers() {
    assert_eq!(one(0x0645), "ADD R6, R4, R5");
    assert_eq!(one(0x1123), "SUB R1, R2, R3");
    assert_eq!(one(0x2FED), "AND R15, R14, R13");
    assert_eq!(one(0x3000), "OR R0, R0, R0");
    assert_eq!(one(0x4ABC), "XOR R10, R11, R12");
    assert_eq!(one(0x5405), "ADDI R4, 5");
    assert_eq!(one(0x54FF), "ADDI R4, -1");
    assert_eq!(one(0x5480), "ADDI R4, -128");
}

#[test]
fn loads_and_stores_are_written_as_the_assembler_reads_them() {
    assert_eq!(one(0x6120), "LW R1, (R2)");
    assert_eq!(one(0x6121), "LB R1, (R2)");
    assert_eq!(one(0x6122), "LBU R1, (R2)");
    assert_eq!(one(0x6123), "LW R1, 2(R2)");
    assert_eq!(one(0x6124), "LW R1, 4(R2)");
    assert_eq!(one(0x6125), "LW R1, 6(R2)");
    assert_eq!(one(0x6126), "LW R1, -2(R2)");
    assert_eq!(one(0x6127), "LW R1, -4(R2)");
    assert_eq!(one(0x6453), "LW R4, 2(R5)");
    assert_eq!(one(0x6129), "LOAD R1, (R2) f=9");
    assert_eq!(one(0x612F), "LOAD R1, (R2) f=15");
    assert_eq!(one(0x6438), "LUI R4, 0x30");
    assert_eq!(one(0x6408), "LUI R4, 0x00");
    assert_eq!(one(0x7120), "SW (R2), R1");
    assert_eq!(one(0x7121), "SB (R2), R1");
    assert_eq!(one(0x7122), "SW 2(R2), R1");
    assert_eq!(one(0x7123), "SW 4(R2), R1");
    assert_eq!(one(0x7124), "SW 6(R2), R1");
    assert_eq!(one(0x7125), "SW -2(R2), R1");
    assert_eq!(one(0x7126), "SW -4(R2), R1");
    assert_eq!(one(0x7127), "STORE R1, (R2) f=7");
    assert_eq!(one(0x712F), "STORE R1, (R2) f=15");
}

#[test]
fn branches_show_their_condition_and_their_byte_distance() {
    assert_eq!(one(0x8002), "BEQ 4");
    assert_eq!(one(0x81FD), "BNE -6");
    assert_eq!(one(0x8200), "BLT 0");
    assert_eq!(one(0x837F), "BGE 254");
    assert_eq!(one(0x8480), "BLTU -256");
    assert_eq!(one(0x8501), "BGEU 2");
    assert_eq!(one(0x8601), "BMI 2");
    assert_eq!(one(0x8701), "BPL 2");
    assert_eq!(one(0x8801), "BVS 2");
    assert_eq!(one(0x8901), "BVC 2");
    assert_eq!(one(0x8A01), "BCS 2");
    assert_eq!(one(0x8B01), "BCC 2");
    assert_eq!(one(0x8C01), "BGT 2");
    assert_eq!(one(0x8D01), "BLE 2");
    assert_eq!(one(0x8E01), "BHI 2");
    assert_eq!(one(0x8F01), "BLS 2");
}

#[test]
fn jumps_are_told_apart_as_the_decoder_does() {
    assert_eq!(one(0x9F10), "JR R1");
    assert_eq!(one(0x9541), "JALR R5, R4");
    assert_eq!(one(0x9041), "J 130");
    assert_eq!(one(0x9002), "J 4");
    assert_eq!(one(0x9FFF), "J -2");
    assert_eq!(one(0x9800), "J -4096");
    assert_eq!(one(0x97FF), "J 4094");
}

#[test]
fn shifts_and_multiplications_are_named_by_their_function() {
    let names = [
        "SLL", "SRL", "SRA", "ROL", "ROR", "SHIFT", "SHIFT", "SWAP", "SLL4", "SRL4", "SRA4",
        "SHIFT", "SLL8", "SRL8", "SRA8", "SHIFT",
    ];
    for (func, name) in names.iter().enumerate() {
        assert_eq!(one(0xA120 | func as u16), format!("{name} R1, R2"));
    }
    assert_eq!(one(0xA450), "SLL R4, R5");
    let names = ["MUL", "MULH", "MULHU", "DIV", "DIVU", "REM", "REMU"];
    for (func, name) in names.iter().enumerate() {
        assert_eq!(one(0xB120 | func as u16), format!("{name} R1, R2"));
    }
    assert_eq!(one(0xB107), "DAA R1");
    assert_eq!(one(0xB128), "MULDIV R1, R2");
}

#[test]
fn stack_block_and_flag_operations_are_named() {
    assert_eq!(one(0xC050), "PUSH R5");
    assert_eq!(one(0xC501), "POP R5");
    assert_eq!(one(0xC452), "CMP R4, R5");
    assert_eq!(one(0xC453), "TEST R4, R5");
    assert_eq!(one(0xC454), "MOV R4, R5");
    assert_eq!(one(0xC005), "LDI");
    assert_eq!(one(0xC006), "LDD");
    assert_eq!(one(0xC007), "LDIR");
    assert_eq!(one(0xC008), "LDDR");
    assert_eq!(one(0xC009), "CPIR");
    assert_eq!(one(0xC00A), "FILL");
    assert_eq!(one(0xC00B), "EXX");
    assert_eq!(one(0xC30C), "GETF R3");
    assert_eq!(one(0xC03D), "SETF R3");
    assert_eq!(one(0xC00E), "MISC f=14");
}

#[test]
fn port_and_system_operations_are_named() {
    assert_eq!(one(0xD4A0), "INI R4, 0xA");
    assert_eq!(one(0xD4A1), "OUTI 0xA, R4");
    assert_eq!(one(0xD562), "IN R5, (R6)");
    assert_eq!(one(0xD653), "OUT (R6), R5");
    assert_eq!(one(0xD004), "I/O f=4");
    assert_eq!(one(0xE000), "NOP");
    assert_eq!(one(0xE100), "HALT");
    assert_eq!(one(0xE200), "DI");
    assert_eq!(one(0xE300), "EI");
    assert_eq!(one(0xE400), "RETI");
    assert_eq!(one(0xE505), "SWI 0x05");
    assert_eq!(one(0xE5FF), "SWI 0xFF");
    assert_eq!(one(0xE600), "SCF");
    assert_eq!(one(0xE700), "CCF");
    assert_eq!(one(0xE800), "SYS f=8");
}

#[test]
fn extended_operations_take_four_bytes() {
    let cases: [(u16, u16, &str); 17] = [
        (0xF450, 0x0010, "ADDIX R4, R5, 0x0010"),
        (0xF451, 0xFFFF, "SUBIX R4, R5, 0xFFFF"),
        (0xF452, 0x00FF, "ANDIX R4, R5, 0x00FF"),
        (0xF453, 0x0F00, "ORIX R4, R5, 0x0F00"),
        (0xF454, 0xFFFF, "XORIX R4, R5, 0xFFFF"),
        (0xF455, 0x0010, "LWX R4, 0x0010(R5)"),
        (0xF456, 0x0010, "SWX R4, 0x0010(R5)"),
        (0xF407, 0x1234, "LIX R4, 0x1234"),
        (0xF008, 0x0100, "JX 0x0100"),
        (0xF109, 0x0006, "JALX 0x0006"),
        (0xF509, 0x0006, "JALX R5, 0x0006"),
        (0xF40A, 0x0003, "CMPIX R4, 0x0003"),
        (0xF40B, 0x1281, "INX R4, 0x81"),
        (0xF05C, 0x0081, "OUTX 0x81, R5"),
        (0xF45D, 0x0013, "SLLX R4, R5, 3"),
        (0xF45E, 0x000F, "SRLX R4, R5, 15"),
        (0xF45F, 0x0000, "SRAX R4, R5, 0"),
    ];
    for (word, imm, text) in cases {
        assert_eq!(text_at(&[word, imm]), (text.to_string(), 4));
        assert_eq!(render_instruction(word, imm), text);
    }
}

#[test]
fn disassembly_wraps_at_the_top_of_memory() {
    let mut cpu = Cpu::new();
    cpu.write_byte(0xFFFF, 0x07);
    cpu.write_byte(0x0000, 0xF4);
    cpu.write_byte(0x0001, 0x34);
    cpu.write_byte(0x0002, 0x12);
    assert_eq!(disassemble(&cpu, 0xFFFF), ("LIX R4, 0x1234".to_string(), 4));
}

#[test]
fn disassembly_does_not_touch_the_machine() {
    let mut cpu = Cpu::new();
    cpu.write_word(0x0100, 0xE100);
    let _ = disassemble(&cpu, 0x0100);
    assert_eq!(cpu.get_pc(), 0x0100);
    assert_eq!(cpu.get_cycles(), 0);
    assert!(!cpu.is_halted());
}

fn feed(term: &mut TerminalEmulator, bytes: &[u8]) {
    for b in bytes {
        term.putchar(*b);
    }
}

fn screen(text: &[u8]) -> TerminalEmulator {
    let mut term = TerminalEmulator::new();
    feed(&mut term, text);
    term
}

fn row(term: &TerminalEmulator, r: usize) -> String {
    term.get_lines()[r].trim_end().to_string()
}

#[test]
fn a_new_terminal_is_blank() {
    let term = TerminalEmulator::new();
    let lines = term.get_lines();
    assert_eq!(lines.len(), 24);
    for line in lines {
        assert_eq!(line, " ".repeat(80));
    }
    assert_eq!(term.cursor_position(), (0, 0));
    assert!(term.is_cursor_visible());
}

#[test]
fn printable_characters_are_written_at_the_cursor() {
    let term = screen(b"Hi~ ");
    assert_eq!(row(&term, 0), "Hi~");
    assert_eq!(term.cursor_position(), (0, 4));
}

#[test]
fn control_characters_move_the_cursor() {
    let term = screen(b"abc\rX");
    assert_eq!(row(&term, 0), "Xbc");
    let term = screen(b"abc\nX");
    assert_eq!(row(&term, 0), "abc");
    assert_eq!(row(&term, 1), "   X");
    let term = screen(b"abc\x08\x08X");
    assert_eq!(row(&term, 0), "aXc");
    let term = screen(b"\x08\x08a");
    assert_eq!(term.cursor_position(), (0, 1));
    let term = screen(b"a\tb");
    assert_eq!(row(&term, 0), "a       b");
    let term = screen(b"12345678\tb");
    assert_eq!(term.cursor_position(), (0, 17));
    let term = screen(b"a\x07\x00\x7F\xFFb");
    assert_eq!(row(&term, 0), "ab");
}

#[test]
fn a_tab_near_the_right_edge_stops_at_the_last_column() {
    let mut term = TerminalEmulator::new();
    feed(&mut term, b"\x1b[1;73H\t");
    assert_eq!(term.cursor_position(), (0, 79));
    feed(&mut term, b"\t");
    assert_eq!(term.cursor_position(), (0, 79));
}

#[test]
fn text_wraps_at_the_right_edge() {
    let mut term = TerminalEmulator::new();
    feed(&mut term, "x".repeat(80).as_bytes());
    assert_eq!(term.cursor_position(), (1, 0));
    feed(&mut term, b"y");
    assert_eq!(term.get_lines()[0], "x".repeat(80));
    assert_eq!(row(&term, 1), "y");
}

#[test]
fn the_screen_scrolls_at_the_bottom() {
    let mut term = TerminalEmulator::new();
    for i in 0..24 {
        feed(&mut term, format!("line{i}\r\n").as_bytes());
    }
    assert_eq!(term.cursor_position(), (23, 0));
    assert_eq!(row(&term, 0), "line1");
    assert_eq!(row(&term, 22), "line23");
    assert_eq!(row(&term, 23), "");
    feed(&mut term, "z".repeat(80).as_bytes());
    assert_eq!(term.cursor_position(), (23, 0));
    assert_eq!(row(&term, 0), "line2");
    assert_eq!(term.get_lines()[22], "z".repeat(80));
}

#[test]
fn cursor_position_sequences_place_the_cursor() {
    assert_eq!(screen(b"\x1b[5;10H").cursor_position(), (4, 9));
    assert_eq!(screen(b"\x1b[5;10f").cursor_position(), (4, 9));
    assert_eq!(screen(b"abc\n\x1b[H").cursor_position(), (0, 0));
    assert_eq!(screen(b"\x1b[7H").cursor_position(), (6, 0));
    assert_eq!(screen(b"\x1b[;7H").cursor_position(), (6, 0));
    assert_eq!(screen(b"\x1b[0;0H").cursor_position(), (0, 0));
    assert_eq!(screen(b"\x1b[99;999H").cursor_position(), (23, 79));
    assert_eq!(screen(b"\x1b[+3;!;4H").cursor_position(), (2, 3));
    assert_eq!(screen(b"\x1b[99999999999999999999999;5H").cursor_position(), (4, 0));
}

#[test]
fn cursor_movement_sequences_stay_on_the_screen() {
    assert_eq!(screen(b"\x1b[5;5H\x1b[2A").cursor_position(), (2, 4));
    assert_eq!(screen(b"\x1b[5;5H\x1b[A").cursor_position(), (3, 4));
    assert_eq!(screen(b"\x1b[5;5H\x1b[9A").cursor_position(), (0, 4));
    assert_eq!(screen(b"\x1b[5;5H\x1b[3B").cursor_position(), (7, 4));
    assert_eq!(screen(b"\x1b[5;5H\x1b[99B").cursor_position(), (23, 4));
    assert_eq!(screen(b"\x1b[5;5H\x1b[18446744073709551615B").cursor_position(), (23, 4));
    assert_eq!(screen(b"\x1b[5;5H\x1b[3C").cursor_position(), (4, 7));
    assert_eq!(screen(b"\x1b[5;5H\x1b[99C").cursor_position(), (4, 79));
    assert_eq!(screen(b"\x1b[5;5H\x1b[3D").cursor_position(), (4, 1));
    assert_eq!(screen(b"\x1b[5;5H\x1b[9D").cursor_position(), (4, 0));
    assert_eq!(screen(b"\x1b[5;5H\x1b[!C").cursor_position(), (4, 5));
    assert_eq!(screen(b"\x1b[5;5H\x1b[0C").cursor_position(), (4, 4));
}

fn filled() -> TerminalEmulator {
    let mut term = TerminalEmulator::new();
    for _ in 0..23 {
        feed(&mut term, "#".repeat(80).as_bytes());
    }
    feed(&mut term, "#".repeat(79).as_bytes());
    term
}

fn count_marks(term: &TerminalEmulator) -> usize {
    term.get_lines().iter().map(|l| l.matches('#').count()).sum()
}

#[test]
fn erase_display_clears_the_part_that_is_asked_for() {
    let mut term = filled();
    feed(&mut term, b"\x1b[3;11H\x1b[J");
    assert_eq!(term.get_lines()[2], format!("{}{}", "#".repeat(10), " ".repeat(70)));
    assert_eq!(count_marks(&term), 2 * 80 + 10);
    assert_eq!(term.cursor_position(), (2, 10));

    let mut term = filled();
    feed(&mut term, b"\x1b[3;11H\x1b[1J");
    assert_eq!(term.get_lines()[2], format!("{}{}", " ".repeat(11), "#".repeat(69)));
    assert_eq!(count_marks(&term), 69 + 20 * 80 + 79);

    let mut term = filled();
    feed(&mut term, b"\x1b[3;11H\x1b[2J");
    assert_eq!(count_marks(&term), 0);
    assert_eq!(term.cursor_position(), (0, 0));

    let mut term = filled();
    feed(&mut term, b"\x1b[3J");
    assert_eq!(count_marks(&term), 24 * 80 - 1);
}

#[test]
fn erase_line_clears_the_part_that_is_asked_for() {
    let mut term = filled();
    feed(&mut term, b"\x1b[3;11H\x1b[K");
    assert_eq!(term.get_lines()[2], format!("{}{}", "#".repeat(10), " ".repeat(70)));
    assert_eq!(count_marks(&term), 24 * 80 - 1 - 70);

    let mut term = filled();
    feed(&mut term, b"\x1b[3;11H\x1b[1K");
    assert_eq!(term.get_lines()[2], format!("{}{}", " ".repeat(11), "#".repeat(69)));
    assert_eq!(count_marks(&term), 24 * 80 - 1 - 11);

    let mut term = filled();
    feed(&mut term, b"\x1b[3;11H\x1b[2K");
    assert_eq!(term.get_lines()[2], " ".repeat(80));
    assert_eq!(count_marks(&term), 24 * 80 - 1 - 80);
    assert_eq!(term.cursor_position(), (2, 10));
}

#[test]
fn the_cursor_can_be_hidden_and_shown() {
    let mut term = TerminalEmulator::new();
    feed(&mut term, b"\x1b[?25l");
    assert!(!term.is_cursor_visible());
    feed(&mut term, b"\x1b[?25h");
    assert!(term.is_cursor_visible());
    feed(&mut term, b"\x1b[?26l\x1b[25l\x1b[?25m");
    assert!(term.is_cursor_visible());
}

#[test]
fn escape_sequences_print_nothing() {
    let term = screen(b"a\x1b[31mb\x1bcd\x1b[5;5");
    assert_eq!(row(&term, 0), "abd");
    assert_eq!(term.cursor_position(), (0, 3));
}

fn press(code: KeyCode) -> KeyPress {
    KeyPress { code, alt: false, control: false }
}

fn machine_that_prints() -> Cpu {
    let mut cpu = Cpu::new();
    let program: [u16; 8] = [0xF407, 0x0041, 0xF04C, 0x0081, 0xF04C, 0x0081, 0xE100, 0];
    let mut addr = 0x0100;
    for w in program {
        cpu.write_word(addr, w);
        addr += 2;
    }
    cpu
}

const GO_ON: KeyOutcome = KeyOutcome { keep_running: true, needs_clear: false };

#[test]
fn a_new_session_is_paused() {
    let dbg = Debugger::new(0x0100);
    assert_eq!(dbg.run_state, RunState::Paused);
    assert_eq!(dbg.cycles_per_frame, 50000);
    assert_eq!(dbg.memory_view_addr, 0x0100);
    assert_eq!(dbg.start_pc, 0x0100);
    assert!(dbg.output_buffer.is_empty());
}

#[test]
fn function_keys_run_step_and_pause() {
    let mut cpu = machine_that_prints();
    let mut dbg = Debugger::new(0x0100);
    assert_eq!(dbg.handle_key(&mut cpu, press(KeyCode::F(5))), GO_ON);
    assert_eq!(dbg.run_state, RunState::Running);
    assert_eq!(dbg.handle_key(&mut cpu, press(KeyCode::F(7))), GO_ON);
    assert_eq!(dbg.run_state, RunState::Paused);
    assert_eq!(dbg.handle_key(&mut cpu, press(KeyCode::F(6))), GO_ON);
    assert_eq!(dbg.run_state, RunState::Paused);
    assert_eq!(cpu.get_pc(), 0x0104);
    assert_eq!(cpu.get_register(4), 0x41);
    dbg.handle_key(&mut cpu, press(KeyCode::F(6)));
    assert_eq!(dbg.output_buffer, [0x41]);
    assert!(cpu.get_serial_output().is_empty());
}

#[test]
fn the_quit_key_ends_the_session() {
    let mut cpu = Cpu::new();
    let mut dbg = Debugger::new(0x0100);
    assert_eq!(
        dbg.handle_key(&mut cpu, press(KeyCode::F(12))),
        KeyOutcome { keep_running: false, needs_clear: false }
    );
    assert_eq!(dbg.handle_key(&mut cpu, press(KeyCode::F(1))), GO_ON);
    assert_eq!(dbg.handle_key(&mut cpu, press(KeyCode::Other)), GO_ON);
}

#[test]
fn a_frame_runs_until_the_machine_halts() {
    let mut cpu = machine_that_prints();
    let mut dbg = Debugger::new(0x0100);
    dbg.run_frame(&mut cpu);
    assert_eq!(cpu.get_cycles(), 0);
    dbg.handle_key(&mut cpu, press(KeyCode::F(5)));
    dbg.run_frame(&mut cpu);
    assert_eq!(dbg.run_state, RunState::Halted);
    assert!(cpu.is_halted());
    assert_eq!(cpu.get_cycles(), 4);
    assert_eq!(dbg.output_buffer, [0x41, 0x41]);
    dbg.handle_key(&mut cpu, press(KeyCode::F(5)));
    assert_eq!(dbg.run_state, RunState::Halted);
    dbg.handle_key(&mut cpu, press(KeyCode::F(6)));
    assert_eq!(dbg.run_state, RunState::Halted);
}

#[test]
fn a_frame_takes_no_more_steps_than_the_speed_allows() {
    let mut cpu = Cpu::new();
    cpu.write_word(0x0100, 0x9FFF);
    let mut dbg = Debugger::new(0x0100);
    dbg.cycles_per_frame = 7;
    dbg.handle_key(&mut cpu, press(KeyCode::F(5)));
    dbg.run_frame(&mut cpu);
    assert_eq!(cpu.get_cycles(), 7);
    assert_eq!(dbg.run_state, RunState::Running);
}

#[test]
fn a_fault_marks_the_session_halted() {
    let mut cpu = Cpu::new();
    cpu.write_word(0x0100, 0x600F);
    let mut dbg = Debugger::new(0x0100);
    dbg.handle_key(&mut cpu, press(KeyCode::F(5)));
    dbg.run_frame(&mut cpu);
    assert_eq!(dbg.run_state, RunState::Halted);
    assert!(!cpu.is_halted());
    assert_eq!(cpu.get_cycles(), 0);
}

#[test]
fn reset_returns_to_the_start_of_the_program() {
    let mut cpu = machine_that_prints();
    let mut dbg = Debugger::new(0x0100);
    dbg.handle_key(&mut cpu, press(KeyCode::F(5)));
    dbg.run_frame(&mut cpu);
    dbg.flush_output();
    assert_eq!(dbg.terminal.cursor_position(), (0, 2));
    dbg.start_pc = 0x0104;
    assert_eq!(
        dbg.handle_key(&mut cpu, press(KeyCode::F(8))),
        KeyOutcome { keep_running: true, needs_clear: true }
    );
    assert_eq!(dbg.run_state, RunState::Paused);
    assert_eq!(cpu.get_pc(), 0x0104);
    assert!(!cpu.is_halted());
    assert_eq!(cpu.get_register(4), 0);
    assert_eq!(dbg.terminal.cursor_position(), (0, 0));
    assert_eq!(dbg.terminal.get_lines()[0], " ".repeat(80));
    assert_eq!(cpu.read_word(0x0100), 0xF407);
}

#[test]
fn the_memory_view_moves_by_rows_and_pages() {
    let mut cpu = Cpu::new();
    let mut dbg = Debugger::new(0x0100);
    dbg.handle_key(&mut cpu, press(KeyCode::F(9)));
    assert_eq!(dbg.memory_view_addr, 0x00F0);
    dbg.handle_key(&mut cpu, press(KeyCode::PageUp));
    assert_eq!(dbg.memory_view_addr, 0xFFF0);
    dbg.handle_key(&mut cpu, press(KeyCode::F(10)));
    assert_eq!(dbg.memory_view_addr, 0x0000);
    dbg.handle_key(&mut cpu, press(KeyCode::PageDown));
    assert_eq!(dbg.memory_view_addr, 0x0100);
}

#[test]
fn the_speed_changes_in_steps_within_its_limits() {
    let mut cpu = Cpu::new();
    let mut dbg = Debugger::new(0x0100);
    let faster = KeyPress { code: KeyCode::Char('='), alt: true, control: false };
    let slower = KeyPress { code: KeyCode::Char('-'), alt: true, control: false };
    dbg.handle_key(&mut cpu, faster);
    assert_eq!(dbg.cycles_per_frame, 60000);
    dbg.cycles_per_frame = 495000;
    dbg.handle_key(&mut cpu, faster);
    assert_eq!(dbg.cycles_per_frame, 500000);
    dbg.cycles_per_frame = usize::MAX;
    dbg.handle_key(&mut cpu, faster);
    assert_eq!(dbg.cycles_per_frame, 500000);
    dbg.handle_key(&mut cpu, slower);
    assert_eq!(dbg.cycles_per_frame, 490000);
    dbg.cycles_per_frame = 10500;
    dbg.handle_key(&mut cpu, slower);
    assert_eq!(dbg.cycles_per_frame, 1000);
    dbg.cycles_per_frame = 5;
    dbg.handle_key(&mut cpu, slower);
    assert_eq!(dbg.cycles_per_frame, 1000);
}

fn typed(key: KeyPress) -> Vec<u8> {
    let mut cpu = Cpu::new();
    for i in 0..8u16 {
        cpu.write_word(0x0100 + 4 * i, 0xF40B);
        cpu.write_word(0x0102 + 4 * i, 0x0081);
    }
    let mut dbg = Debugger::new(0x0100);
    dbg.run_state = RunState::Running;
    dbg.handle_key(&mut cpu, key);
    let mut bytes = Vec::new();
    for _ in 0..8 {
        cpu.step().unwrap();
        match cpu.get_register(4) {
            0 => break,
            b => bytes.push(b as u8),
        }
    }
    bytes
}

#[test]
fn keys_are_typed_to_a_running_machine() {
    assert_eq!(typed(press(KeyCode::Char('a'))), [b'a']);
    assert_eq!(typed(press(KeyCode::Char('='))), [b'=']);
    assert_eq!(typed(KeyPress { code: KeyCode::Char('c'), alt: false, control: true }), [3]);
    assert_eq!(typed(KeyPress { code: KeyCode::Char('A'), alt: false, control: true }), [0xE1]);
    assert_eq!(typed(KeyPress { code: KeyCode::Char('x'), alt: true, control: false }), [b'x']);
    assert_eq!(typed(press(KeyCode::Char('é'))), [0xE9]);
    assert_eq!(typed(press(KeyCode::Enter)), [0x0D]);
    assert_eq!(typed(press(KeyCode::Backspace)), [0x08]);
    assert_eq!(typed(press(KeyCode::Esc)), [0x1B]);
    assert_eq!(typed(press(KeyCode::Up)), [0x1B, b'[', b'A']);
    assert_eq!(typed(press(KeyCode::Down)), [0x1B, b'[', b'B']);
    assert_eq!(typed(press(KeyCode::Right)), [0x1B, b'[', b'C']);
    assert_eq!(typed(press(KeyCode::Left)), [0x1B, b'[', b'D']);
    assert_eq!(typed(press(KeyCode::PageUp)), []);
}

#[test]
fn keys_are_not_typed_to_a_paused_machine() {
    let mut cpu = Cpu::new();
    cpu.write_word(0x0100, 0xF40B);
    cpu.write_word(0x0102, 0x0081);
    let mut dbg = Debugger::new(0x0100);
    dbg.handle_key(&mut cpu, press(KeyCode::Char('a')));
    dbg.handle_key(&mut cpu, press(KeyCode::Enter));
    cpu.step().unwrap();
    assert_eq!(cpu.get_register(4), 0);
}

#[test]
fn output_reaches_the_terminal_a_frame_at_a_time() {
    let mut dbg = Debugger::new(0x0100);
    for i in 0..300u32 {
        dbg.output_buffer.push_back(b'a' + (i % 26) as u8);
    }
    dbg.flush_output();
    assert_eq!(dbg.output_buffer.len(), 180);
    assert_eq!(dbg.terminal.cursor_position(), (1, 40));
    dbg.flush_output();
    dbg.flush_output();
    assert!(dbg.output_buffer.is_empty());
    assert_eq!(dbg.terminal.cursor_position(), (3, 60));
    dbg.flush_output();
    assert_eq!(dbg.terminal.cursor_position(), (3, 60));
    assert!(dbg.terminal.get_lines()[0].starts_with("abcdefghijklmnopqrstuvwxyzab"));
}

#[test]
fn collected_output_leaves_the_machine() {
    let mut cpu = Cpu::new();
    cpu.port_write(0x81, b'o');
    cpu.port_write(0x81, b'k');
    let mut dbg = Debugger::new(0x0100);
    dbg.output_buffer.push_back(b'>');
    dbg.collect_output(&mut cpu);
    assert_eq!(dbg.output_buffer, [b'>', b'o', b'k']);
    assert!(cpu.get_serial_output().is_empty());
}
