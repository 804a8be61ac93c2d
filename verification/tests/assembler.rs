use sampo::codegen::CodeGen;
use sampo::lexer::Lexer;
use sampo::parser::{DirectiveArg, Operand, Parser, Program, Statement};

fn assemble(source: &str) -> Result<Vec<u8>, String> {
    let tokens = Lexer::new(source).tokenize()?;
    let program = Parser::new(tokens).parse()?;
    CodeGen::new().generate(&program)
}

fn instruction(mnemonic: &str, operands: Vec<Operand>) -> Statement {
    Statement::Instruction { mnemonic: mnemonic.to_string(), operands }
}

fn directive(name: &str, args: Vec<DirectiveArg>) -> Statement {
    Statement::Directive { name: name.to_string(), args }
}

fn generate(statements: Vec<Statement>) -> Result<Vec<u8>, String> {
    CodeGen::new().generate(&Program { statements })
}

fn reg(r: u8) -> Operand {
    Operand::Register(r)
}

#[test]
fn addi_then_halt_assembles_to_four_bytes() {
    assert_eq!(assemble("ADDI R4,5\nHALT\n").unwrap(), vec![0x05, 0x54, 0x00, 0xE1]);
}

#[test]
fn generate_is_idempotent() {
    let program = Program {
        statements: vec![
            Statement::Label("start".to_string()),
            instruction("JX", vec![Operand::Label("start".to_string())]),
        ],
    };
    let mut codegen = CodeGen::new();
    let first = codegen.generate(&program).unwrap();
    let second = codegen.generate(&program).unwrap();
    assert_eq!(first, vec![0x08, 0xF0, 0x00, 0x00]);
    assert_eq!(first, second);
}

#[test]
fn three_register_instructions_fill_the_fields() {
    assert_eq!(assemble("ADD R6, R4, R5").unwrap(), vec![0x45, 0x06]);
    assert_eq!(assemble("SUB R1, R2, R3").unwrap(), vec![0x23, 0x11]);
    assert_eq!(assemble("AND R15, R14, R13").unwrap(), vec![0xED, 0x2F]);
    assert_eq!(assemble("OR R0, R0, R0").unwrap(), vec![0x00, 0x30]);
    assert_eq!(assemble("XOR R9, R8, R7").unwrap(), vec![0x87, 0x49]);
}

#[test]
fn mnemonics_are_read_in_any_case() {
    assert_eq!(
        generate(vec![instruction("addi", vec![reg(4), Operand::Immediate(5)])]).unwrap(),
        vec![0x05, 0x54]
    );
    assert_eq!(assemble("halt").unwrap(), vec![0x00, 0xE1]);
    assert_eq!(assemble("Add r6, a0, A1").unwrap(), vec![0x45, 0x06]);
}

#[test]
fn addi_accepts_the_signed_byte_range() {
    assert_eq!(assemble("ADDI R4, -128").unwrap(), vec![0x80, 0x54]);
    assert_eq!(assemble("ADDI R4, 127").unwrap(), vec![0x7F, 0x54]);
    assert_eq!(assemble("ADDI R4, -1").unwrap(), vec![0xFF, 0x54]);
}

#[test]
fn addi_rejects_what_lies_outside_the_signed_byte_range() {
    assert_eq!(assemble("ADDI R4, -129").unwrap_err(), "Immediate -129 out of range for ADDI");
    assert_eq!(assemble("ADDI R4, 128").unwrap_err(), "Immediate 128 out of range for ADDI");
}

#[test]
fn addi_takes_a_symbol_for_its_immediate() {
    assert_eq!(assemble(".equ five, 5\nADDI R4, five").unwrap(), vec![0x05, 0x54]);
    assert_eq!(assemble("ADDI R4, nowhere").unwrap_err(), "Undefined symbol: nowhere");
}

#[test]
fn extended_instructions_take_four_bytes() {
    assert_eq!(assemble("LIX R4, 0x1234").unwrap(), vec![0x07, 0xF4, 0x34, 0x12]);
    assert_eq!(assemble("JX 0x0200").unwrap(), vec![0x08, 0xF0, 0x00, 0x02]);
    assert_eq!(assemble("JALX 0x0200").unwrap(), vec![0x09, 0xF1, 0x00, 0x02]);
    assert_eq!(assemble("JAL 0x0200").unwrap(), vec![0x09, 0xF1, 0x00, 0x02]);
    assert_eq!(assemble("NOT R4, R5").unwrap(), vec![0x54, 0xF4, 0xFF, 0xFF]);
    assert_eq!(assemble("INI R4, 0x81").unwrap(), vec![0x0B, 0xF4, 0x81, 0x00]);
    assert_eq!(assemble("OUTI 0x81, R5").unwrap(), vec![0x5C, 0xF0, 0x81, 0x00]);
}

#[test]
fn labels_after_jal_and_not_account_for_four_bytes() {
    let bytes = assemble("JAL sub\nNOT R4, R5\nsub: HALT\n").unwrap();
    assert_eq!(bytes, vec![0x09, 0xF1, 0x08, 0x00, 0x54, 0xF4, 0xFF, 0xFF, 0x00, 0xE1]);
}

#[test]
fn sized_but_unencoded_extended_mnemonics_are_refused() {
    assert_eq!(
        generate(vec![instruction("ADDIX", vec![reg(4), reg(5), Operand::Immediate(1)])])
            .unwrap_err(),
        "Unknown instruction: ADDIX"
    );
}

#[test]
fn unknown_mnemonic_is_reported_as_written() {
    assert_eq!(
        generate(vec![instruction("frobnicate", vec![])]).unwrap_err(),
        "Unknown instruction: frobnicate"
    );
}

#[test]
fn operand_shapes_are_enforced() {
    assert_eq!(assemble("ADD R1, R2").unwrap_err(), "Expected three registers");
    assert_eq!(assemble("ADD R1, R2, 3").unwrap_err(), "Expected three registers");
    assert_eq!(assemble("MOV R1").unwrap_err(), "Expected two registers");
    assert_eq!(assemble("PUSH 5").unwrap_err(), "Expected register");
    assert_eq!(assemble("ADDI R1").unwrap_err(), "Expected register and immediate");
    assert_eq!(assemble("ADDI 1, R1").unwrap_err(), "Expected register and immediate");
    assert_eq!(assemble("OUTI R1").unwrap_err(), "Expected immediate and register");
    assert_eq!(assemble("OUTI R1, 5").unwrap_err(), "Expected immediate and register");
    assert_eq!(assemble("SWI R1").unwrap_err(), "Expected immediate");
    assert_eq!(assemble("SWI").unwrap_err(), "Expected immediate");
    assert_eq!(assemble("LW R1").unwrap_err(), "Expected register and address");
    assert_eq!(assemble("LW R1, 5").unwrap_err(), "Expected register and indirect address");
    assert_eq!(assemble("SW R1").unwrap_err(), "Expected address and register");
    assert_eq!(assemble("SW 5, R1").unwrap_err(), "Expected address and register for store");
    assert_eq!(assemble("IN R1").unwrap_err(), "Expected register and port");
    assert_eq!(assemble("IN R1, 5").unwrap_err(), "Expected register and port register");
    assert_eq!(assemble("OUT R1").unwrap_err(), "Expected port and register");
    assert_eq!(assemble("OUT 5, R1").unwrap_err(), "Expected port register and register");
    assert_eq!(assemble("LIX R1").unwrap_err(), "Expected register and value");
    assert_eq!(assemble("LIX R1, R2").unwrap_err(), "Expected register and immediate or label");
    assert_eq!(assemble("BEQ").unwrap_err(), "Branch requires target");
    assert_eq!(assemble("BEQ R1").unwrap_err(), "Branch requires target");
    assert_eq!(assemble("J").unwrap_err(), "Jump requires target");
    assert_eq!(assemble("J R1").unwrap_err(), "Jump requires target");
    assert_eq!(assemble("JAL R1").unwrap_err(), "JAL requires a label or address");
    assert_eq!(assemble("JX R1").unwrap_err(), "JX requires address");
    assert_eq!(assemble("JALX").unwrap_err(), "JALX requires address");
}

#[test]
fn port_numbers_must_fit_a_byte() {
    assert_eq!(assemble("INI R4, 255").unwrap(), vec![0x0B, 0xF4, 0xFF, 0x00]);
    assert_eq!(assemble("INI R4, 256").unwrap_err(), "Port number out of range");
    assert_eq!(assemble("INI R4, -1").unwrap_err(), "Port number out of range");
    assert_eq!(assemble("OUTI 256, R4").unwrap_err(), "Port number out of range");
}

#[test]
fn word_loads_use_the_load_displacement_table() {
    assert_eq!(assemble("LW R1, (R2)").unwrap(), vec![0x20, 0x61]);
    assert_eq!(assemble("LW R1, 2(R2)").unwrap(), vec![0x23, 0x61]);
    assert_eq!(assemble("LW R1, (R2 + 4)").unwrap(), vec![0x24, 0x61]);
    assert_eq!(assemble("LW R1, 6(R2)").unwrap(), vec![0x25, 0x61]);
    assert_eq!(assemble("LW R1, (R2 - 2)").unwrap(), vec![0x26, 0x61]);
    assert_eq!(assemble("LW R1, -4(R2)").unwrap(), vec![0x27, 0x61]);
    assert_eq!(assemble("LB R1, (R2)").unwrap(), vec![0x21, 0x61]);
    assert_eq!(assemble("LBU R1, (R2)").unwrap(), vec![0x22, 0x61]);
}

#[test]
fn word_stores_use_the_store_displacement_table() {
    assert_eq!(assemble("SW (R2), R1").unwrap(), vec![0x20, 0x71]);
    assert_eq!(assemble("SW 2(R2), R1").unwrap(), vec![0x22, 0x71]);
    assert_eq!(assemble("SW 4(R2), R1").unwrap(), vec![0x23, 0x71]);
    assert_eq!(assemble("SW 6(R2), R1").unwrap(), vec![0x24, 0x71]);
    assert_eq!(assemble("SW -2(R2), R1").unwrap(), vec![0x25, 0x71]);
    assert_eq!(assemble("SW -4(R2), R1").unwrap(), vec![0x26, 0x71]);
    assert_eq!(assemble("SB (R2), R1").unwrap(), vec![0x21, 0x71]);
}

#[test]
fn displacements_outside_the_table_are_refused() {
    assert_eq!(
        assemble("LW R1, 8(R2)").unwrap_err(),
        "Unsupported offset 8 for short load/store"
    );
    assert_eq!(
        assemble("SW -6(R2), R1").unwrap_err(),
        "Unsupported offset -6 for short load/store"
    );
    assert_eq!(
        assemble("LW R1, 1(R2)").unwrap_err(),
        "Unsupported offset 1 for short load/store"
    );
}

#[test]
fn lui_keeps_the_function_nibble_and_the_high_nibble_of_the_immediate() {
    assert_eq!(assemble("LUI R4, 0x10").unwrap(), vec![0x18, 0x64]);
    assert_eq!(assemble("LUI R4, 0x12").unwrap(), vec![0x18, 0x64]);
    assert_eq!(assemble("LUI R4, 0xF0").unwrap(), vec![0xF8, 0x64]);
}

#[test]
fn out_puts_the_port_register_in_the_rd_field() {
    assert_eq!(assemble("OUT (R6), R5").unwrap(), vec![0x53, 0xD6]);
    assert_eq!(assemble("IN R5, (R6)").unwrap(), vec![0x62, 0xD5]);
}

#[test]
fn register_and_fixed_forms_encode_as_the_decoder_reads_them() {
    assert_eq!(assemble("JR RA").unwrap(), vec![0x10, 0x9F]);
    assert_eq!(assemble("JALR R1, R4").unwrap(), vec![0x41, 0x91]);
    assert_eq!(assemble("SLL R1, R2").unwrap(), vec![0x20, 0xA1]);
    assert_eq!(assemble("SWAP R1, R2").unwrap(), vec![0x27, 0xA1]);
    assert_eq!(assemble("MUL R1, R2").unwrap(), vec![0x20, 0xB1]);
    assert_eq!(assemble("REMU R1, R2").unwrap(), vec![0x26, 0xB1]);
    assert_eq!(assemble("DAA R3").unwrap(), vec![0x07, 0xB3]);
    assert_eq!(assemble("PUSH R5").unwrap(), vec![0x50, 0xC0]);
    assert_eq!(assemble("POP R5").unwrap(), vec![0x01, 0xC5]);
    assert_eq!(assemble("CMP R4, R5").unwrap(), vec![0x52, 0xC4]);
    assert_eq!(assemble("TEST R4, R5").unwrap(), vec![0x53, 0xC4]);
    assert_eq!(assemble("MOV R4, R5").unwrap(), vec![0x54, 0xC4]);
    assert_eq!(assemble("LDI").unwrap(), vec![0x05, 0xC0]);
    assert_eq!(assemble("EXX").unwrap(), vec![0x0B, 0xC0]);
    assert_eq!(assemble("GETF R3").unwrap(), vec![0x0C, 0xC3]);
    assert_eq!(assemble("SETF R3").unwrap(), vec![0x3D, 0xC0]);
    assert_eq!(assemble("NOP").unwrap(), vec![0x00, 0xE0]);
    assert_eq!(assemble("RETI").unwrap(), vec![0x00, 0xE4]);
    assert_eq!(assemble("SWI 0x10").unwrap(), vec![0x10, 0xE5]);
    assert_eq!(assemble("CCF").unwrap(), vec![0x00, 0xE7]);
    assert_eq!(assemble("NEG R4, R5").unwrap(), vec![0x05, 0x14]);
}

#[test]
fn numeric_branch_distances_are_counted_in_words() {
    assert_eq!(assemble("BEQ 4").unwrap(), vec![0x02, 0x80]);
    assert_eq!(assemble("BNE -6").unwrap(), vec![0xFD, 0x81]);
    assert_eq!(assemble("BLS 254").unwrap(), vec![0x7F, 0x8F]);
    assert_eq!(assemble("BEQ -256").unwrap(), vec![0x80, 0x80]);
    assert_eq!(assemble("BEQ 256").unwrap_err(), "Branch offset out of range");
    assert_eq!(assemble("BEQ -258").unwrap_err(), "Branch offset out of range");
    assert_eq!(assemble("J 4").unwrap(), vec![0x02, 0x90]);
    assert_eq!(assemble("J -2").unwrap(), vec![0xFF, 0x9F]);
    assert_eq!(assemble("J 4096").unwrap_err(), "Jump offset out of range");
}

fn padded(before: usize, instruction: &str, after: usize) -> String {
    let mut source = String::new();
    source.push_str("back:\n");
    for _ in 0..before {
        source.push_str("NOP\n");
    }
    source.push_str(instruction);
    source.push('\n');
    for _ in 0..after {
        source.push_str("NOP\n");
    }
    source.push_str("ahead:\n");
    source
}

#[test]
fn branch_relocation_reaches_127_words_forward() {
    let bytes = assemble(&padded(0, "BEQ ahead", 127)).unwrap();
    assert_eq!(&bytes[0..2], &[0x7F, 0x80]);
}

#[test]
fn branch_relocation_rejects_128_words_forward() {
    assert_eq!(assemble(&padded(0, "BEQ ahead", 128)).unwrap_err(), "Branch to ahead out of range");
}

#[test]
fn branch_relocation_reaches_127_words_backward() {
    let bytes = assemble(&padded(126, "BEQ back", 0)).unwrap();
    assert_eq!(&bytes[252..254], &[0x81, 0x80]);
}

#[test]
fn branch_relocation_fits_a_signed_byte() {
    let bytes = assemble(&padded(127, "BEQ back", 0)).unwrap();
    assert_eq!(&bytes[254..256], &[0x80, 0x80]);
    assert_eq!(assemble(&padded(128, "BEQ back", 0)).unwrap_err(), "Branch to back out of range");
}

#[test]
fn jump_relocation_reaches_2047_words_forward() {
    let bytes = assemble(&padded(0, "J ahead", 2047)).unwrap();
    assert_eq!(&bytes[0..2], &[0xFF, 0x97]);
}

#[test]
fn jump_relocation_rejects_2048_words_forward() {
    assert_eq!(assemble(&padded(0, "J ahead", 2048)).unwrap_err(), "Jump to ahead out of range");
}

#[test]
fn jump_relocation_reaches_2047_words_backward() {
    let bytes = assemble(&padded(2046, "J back", 0)).unwrap();
    assert_eq!(&bytes[4092..4094], &[0x01, 0x98]);
}

#[test]
fn jump_relocation_fits_twelve_signed_bits() {
    let bytes = assemble(&padded(2047, "J back", 0)).unwrap();
    assert_eq!(&bytes[4094..4096], &[0x00, 0x98]);
    assert_eq!(assemble(&padded(2048, "J back", 0)).unwrap_err(), "Jump to back out of range");
}

#[test]
fn a_label_reference_gives_the_bytes_of_the_numeric_reference() {
    assert_eq!(
        assemble("BNE ahead\nNOP\nNOP\nahead:\n").unwrap()[0..2],
        assemble("BNE 4\nNOP\nNOP\n").unwrap()[0..2]
    );
    assert_eq!(
        assemble("back:\nNOP\nNOP\nJ back\n").unwrap()[4..6],
        assemble("NOP\nNOP\nJ -6\n").unwrap()[4..6]
    );
    assert_eq!(
        assemble("LIX R4, ahead\nahead:\n").unwrap(),
        assemble("LIX R4, 4\n").unwrap()
    );
}

#[test]
fn forward_and_backward_references_to_one_label_agree() {
    let forward = assemble(".dw target\n.dw 0\ntarget:\n").unwrap();
    let backward = assemble("NOP\nNOP\ntarget:\n.dw target\n").unwrap();
    assert_eq!(forward[0..2], [0x04, 0x00]);
    assert_eq!(backward[4..6], [0x04, 0x00]);
    let jumps = assemble("JX target\ntarget: JX target\n").unwrap();
    assert_eq!(jumps[2..4], jumps[6..8]);
}

#[test]
fn undefined_symbols_are_hard_errors() {
    assert_eq!(assemble("JX nowhere").unwrap_err(), "Undefined symbol: nowhere");
    assert_eq!(assemble("BEQ nowhere").unwrap_err(), "Undefined symbol: nowhere");
    assert_eq!(assemble(".dw nowhere").unwrap_err(), "Undefined symbol: nowhere");
    assert_eq!(assemble(".db nowhere").unwrap_err(), "Undefined symbol: nowhere");
}

#[test]
fn a_symbol_defined_twice_keeps_its_last_value() {
    assert_eq!(assemble(".equ x, 1\n.equ x, 2\n.db x\n").unwrap(), vec![2]);
    assert_eq!(assemble("x:\nNOP\nx:\n.dw x\n").unwrap(), vec![0x00, 0xE0, 0x02, 0x00]);
}

#[test]
fn symbols_are_case_sensitive() {
    assert_eq!(assemble(".equ Value, 7\n.db value\n").unwrap_err(), "Undefined symbol: value");
}

#[test]
fn org_pads_the_image_with_zeros() {
    let bytes = assemble(".org 0x10\nHALT\n").unwrap();
    assert_eq!(bytes.len(), 0x12);
    assert!(bytes[..0x10].iter().all(|&b| b == 0));
    assert_eq!(&bytes[0x10..], &[0x00, 0xE1]);
}

#[test]
fn labels_after_org_carry_the_new_address() {
    let bytes = assemble(".org 0x100\nstart: JX start\n").unwrap();
    assert_eq!(bytes.len(), 0x104);
    assert_eq!(&bytes[0x100..], &[0x08, 0xF0, 0x00, 0x01]);
}

#[test]
fn image_length_is_origin_plus_sizes() {
    let bytes = assemble(".org 0x20\nLIX R4, 1\nNOP\n.db 1, 2, 3\n.asciz \"hi\"\n.dw 7\n").unwrap();
    assert_eq!(bytes.len(), 0x20 + 4 + 2 + 3 + 3 + 2);
}

#[test]
fn data_directives_emit_their_arguments() {
    assert_eq!(assemble(".db 1, 0x102, -1").unwrap(), vec![0x01, 0x02, 0xFF]);
    assert_eq!(assemble(".db \"AB\", 0").unwrap(), vec![0x41, 0x42, 0x00]);
    assert_eq!(assemble(".dw 0x1234, -2").unwrap(), vec![0x34, 0x12, 0xFE, 0xFF]);
    assert_eq!(assemble(".ascii \"hi\"").unwrap(), vec![0x68, 0x69]);
    assert_eq!(assemble(".asciz \"hi\"").unwrap(), vec![0x68, 0x69, 0x00]);
    assert_eq!(assemble(".ascii \"a\\n\"").unwrap(), vec![0x61, 0x0A]);
    assert_eq!(assemble(".ascii 5").unwrap(), Vec::<u8>::new());
    assert_eq!(assemble(".unknown 5").unwrap(), Vec::<u8>::new());
}

#[test]
fn strings_in_db_count_their_bytes_in_the_sizing_pass() {
    let bytes = assemble(".db \"abc\"\nhere: .dw here\n").unwrap();
    assert_eq!(bytes, vec![0x61, 0x62, 0x63, 0x03, 0x00]);
}

#[test]
fn strings_are_emitted_as_utf8() {
    assert_eq!(assemble(".ascii \"é\"\nend: .dw end").unwrap(), vec![0xC3, 0xA9, 0x02, 0x00]);
}

#[test]
fn dw_refuses_a_string() {
    assert_eq!(
        generate(vec![directive("dw", vec![DirectiveArg::String("x".to_string())])]).unwrap_err(),
        "Invalid .dw argument"
    );
}

#[test]
fn the_first_error_is_the_one_reported() {
    assert_eq!(assemble("BOGUS\nADD R1\n").unwrap_err(), "Unknown instruction: BOGUS");
    assert_eq!(assemble("ADD R1\nBOGUS\n").unwrap_err(), "Expected three registers");
    assert_eq!(assemble("JX nowhere\nBOGUS\n").unwrap_err(), "Unknown instruction: BOGUS");
}

#[test]
fn an_empty_program_gives_an_empty_image() {
    assert_eq!(assemble("").unwrap(), Vec::<u8>::new());
    assert_eq!(assemble("; nothing here\n\n").unwrap(), Vec::<u8>::new());
}

#[test]
fn equ_binds_a_name_to_a_value() {
    assert_eq!(assemble(".equ UART, 0x81\nLIX R6, UART\n").unwrap(), vec![0x07, 0xF6, 0x81, 0x00]);
}

#[test]
fn a_mnemonic_beyond_ascii_is_folded_the_unicode_way() {
    assert_eq!(
        generate(vec![instruction("\u{17f}ub", vec![reg(1), reg(2), reg(3)])]).unwrap(),
        vec![0x23, 0x11]
    );
    assert_eq!(
        generate(vec![instruction("\u{e4}dd", vec![])]).unwrap_err(),
        "Unknown instruction: \u{e4}dd"
    );
}

#[test]
fn emission_starts_at_the_origin_that_was_set_first() {
    let bytes = assemble(".org 0x10\nNOP\n.org 0x20\nHALT\n").unwrap();
    assert_eq!(bytes.len(), 0x22);
    assert!(bytes[..0x10].iter().all(|&b| b == 0));
    assert_eq!(&bytes[0x10..0x12], &[0x00, 0xE0]);
    assert!(bytes[0x12..0x20].iter().all(|&b| b == 0));
    assert_eq!(&bytes[0x20..], &[0x00, 0xE1]);
}

#[test]
fn labels_of_every_section_index_the_image() {
    let bytes =
        assemble(".org 0x10\nfirst: JX second\n.org 0x20\nsecond: JX first\n").unwrap();
    assert_eq!(bytes.len(), 0x24);
    assert_eq!(&bytes[0x10..0x14], &[0x08, 0xF0, 0x20, 0x00]);
    assert_eq!(&bytes[0x20..0x24], &[0x08, 0xF0, 0x10, 0x00]);
}

#[test]
fn an_org_that_does_not_lie_ahead_adds_no_padding() {
    let bytes = assemble(".org 0x10\nNOP\nNOP\n.org 0x10\nHALT\n").unwrap();
    assert_eq!(bytes.len(), 0x16);
    assert_eq!(&bytes[0x10..], &[0x00, 0xE0, 0x00, 0xE0, 0x00, 0xE1]);
}

#[test]
fn org_without_a_number_changes_nothing() {
    assert_eq!(assemble(".org\nHALT\n").unwrap(), vec![0x00, 0xE1]);
    assert_eq!(assemble(".org start\nstart: HALT\n").unwrap(), vec![0x00, 0xE1]);
}

#[test]
fn org_truncates_its_address_to_a_word() {
    let bytes = assemble(".org 0x10004\nHALT\n").unwrap();
    assert_eq!(bytes, vec![0, 0, 0, 0, 0x00, 0xE1]);
}
