use sampo::codegen::CodeGen;
use sampo::cpu::Cpu;
use sampo::disasm::disassemble;
use sampo::lexer::{Lexer, Token};
use sampo::parser::Parser;

fn assemble(source: &str) -> Vec<u8> {
    let tokens = Lexer::new(source).tokenize().unwrap();
    let program = Parser::new(tokens).parse().unwrap();
    CodeGen::new().generate(&program).unwrap()
}

fn disassemble_image(image: &[u8]) -> Vec<String> {
    let mut cpu = Cpu::new();
    cpu.load_program(image);
    let mut lines = Vec::new();
    let mut addr = 0u16;
    while (addr as usize) < image.len() {
        let (text, size) = disassemble(&cpu, addr);
        lines.push(text);
        addr += size;
    }
    lines
}

fn tokens_of(source: &str) -> Vec<Token> {
    Lexer::new(&source.to_uppercase()).tokenize().unwrap()
}

const REGISTER_FORMS: [&str; 49] = [
    "add r1, r2, r3",
    "SUB R15, R14, R13",
    "AND R4, R5, R6",
    "OR R7, R8, R9",
    "XOR R10, R11, R12",
    "MUL R1, R2",
    "MULH R1, R2",
    "MULHU R1, R2",
    "DIV R1, R2",
    "DIVU R1, R2",
    "REM R1, R2",
    "REMU R1, R2",
    "CMP R4, R5",
    "TEST R4, R5",
    "MOV R4, R5",
    "JALR R1, R4",
    "JR R1",
    "PUSH R5",
    "POP R5",
    "GETF R3",
    "SETF R3",
    "LDI",
    "LDD",
    "LDIR",
    "LDDR",
    "CPIR",
    "FILL",
    "EXX",
    "NOP",
    "HALT",
    "DI",
    "EI",
    "RETI",
    "SCF",
    "CCF",
    "LW R1, (R2)",
    "IN R5, (R6)",
    "OUT (R6), R5",
    "SLL R4, R5",
    "SRL R4, R5",
    "SRA R4, R5",
    "ROL R4, R5",
    "ROR R4, R5",
    "SWAP R4, R5",
    "DAA R4",
    "LB R1, (R2)",
    "LBU R1, (R2)",
    "SW (R2), R1",
    "SB (R2), R1",
];

const NUMBER_FORMS: [&str; 23] = [
    "ADDI R4, 5",
    "ADDI R4, -128",
    "LIX R4, 0x1234",
    "JX 0x0100",
    "JALX 0x0200",
    "SWI 0x10",
    "LUI R4, 0x30",
    "LW R4, 2(R5)",
    "LW R4, 4(R5)",
    "LW R4, 6(R5)",
    "LW R4, -2(R5)",
    "LW R4, -4(R5)",
    "SW 2(R5), R4",
    "SW 4(R5), R4",
    "SW 6(R5), R4",
    "SW -2(R5), R4",
    "SW -4(R5), R4",
    "BEQ 6",
    "BNE -256",
    "BLS 254",
    "J 4094",
    "J -4096",
    "J 0",
];

#[test]
fn register_forms_are_disassembled_to_their_source() {
    for source in REGISTER_FORMS {
        let lines = disassemble_image(&assemble(source));
        assert_eq!(lines.len(), 1, "{source}");
        assert_eq!(tokens_of(&lines[0]), tokens_of(source), "{source}");
    }
}

#[test]
fn forms_with_numbers_are_disassembled_to_their_source() {
    for source in NUMBER_FORMS {
        let lines = disassemble_image(&assemble(source));
        assert_eq!(lines.len(), 1, "{source}");
        assert_eq!(tokens_of(&lines[0]), tokens_of(source), "{source}");
    }
}

#[test]
fn a_shift_is_disassembled_under_the_mnemonic_that_assembles_it() {
    let image = assemble("SLL R4,R5");
    assert_eq!(image, vec![0x50, 0xA4]);
    assert_eq!(disassemble_image(&image), vec!["SLL R4, R5".to_string()]);
}

#[test]
fn disassembly_assembles_to_the_same_image() {
    let mut source = String::new();
    for line in REGISTER_FORMS {
        source.push_str(line);
        source.push('\n');
    }
    for line in NUMBER_FORMS {
        source.push_str(line);
        source.push('\n');
    }
    source.push_str("ADDI R4, -7\nLIX R5, 0xBEEF\nJX 0x0040\nSWI 0x7F\n");
    let image = assemble(&source);
    let listing = disassemble_image(&image).join("\n");
    assert_eq!(assemble(&listing), image);
}

#[test]
fn every_short_instruction_takes_two_bytes_and_every_extended_four() {
    for source in REGISTER_FORMS {
        assert_eq!(assemble(source).len(), 2, "{source}");
    }
    for source in ["ADDI R1, 1", "LB R1, (R2)", "SW (R1), R2", "BEQ 2", "J 2", "NEG R1, R2", "DAA R1", "LUI R1, 0x10"] {
        assert_eq!(assemble(source).len(), 2, "{source}");
    }
    for source in ["LIX R1, 1", "JX 2", "JALX 2", "JAL 2", "NOT R1, R2", "INI R1, 2", "OUTI 2, R1"] {
        assert_eq!(assemble(source).len(), 4, "{source}");
    }
}
