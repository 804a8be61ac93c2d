use sampo::codegen::CodeGen;
use sampo::cpu::Cpu;
use sampo::lexer::Lexer;
use sampo::parser::Parser;

const FLAG_N: u8 = 0x80;
const FLAG_Z: u8 = 0x40;
const FLAG_C: u8 = 0x20;
const FLAG_V: u8 = 0x10;
const FLAG_I: u8 = 0x04;

fn assemble(source: &str) -> Vec<u8> {
    let tokens = Lexer::new(source).tokenize().unwrap();
    let program = Parser::new(tokens).parse().unwrap();
    CodeGen::new().generate(&program).unwrap()
}

fn loaded(source: &str) -> Cpu {
    let mut cpu = Cpu::new();
    cpu.load_program(&assemble(source));
    cpu
}

fn run(cpu: &mut Cpu) -> u32 {
    let mut steps = 0;
    while cpu.step().unwrap() {
        steps += 1;
        assert!(steps < 1_000_000, "the program does not halt");
    }
    steps + 1
}

fn run_source(source: &str) -> Cpu {
    let mut cpu = loaded(source);
    run(&mut cpu);
    cpu
}

/// Runs one instruction word on a machine prepared by `prepare`.
fn execute(words: &[u16], prepare: impl FnOnce(&mut Cpu)) -> Cpu {
    let mut cpu = Cpu::new();
    let mut addr = 0x0100u16;
    for w in words {
        cpu.write_word(addr, *w);
        addr = addr.wrapping_add(2);
    }
    prepare(&mut cpu);
    cpu.step().unwrap();
    cpu
}

#[test]
fn a_new_machine_is_at_power_on() {
    let cpu = Cpu::new();
    assert_eq!(cpu.get_pc(), 0x0100);
    assert_eq!(cpu.get_sp(), 0xFFFE);
    assert_eq!(cpu.get_flags(), 0);
    assert_eq!(cpu.get_cycles(), 0);
    assert!(!cpu.is_halted());
    for r in 0..16 {
        assert_eq!(cpu.get_register(r), if r == 2 { 0xFFFE } else { 0 });
    }
    assert_eq!(cpu.read_memory(0), 0);
    assert_eq!(cpu.read_memory(0xFFFF), 0);
    assert!(cpu.get_serial_output().is_empty());
}

#[test]
fn registers_read_back_what_was_written() {
    let mut cpu = Cpu::new();
    for r in 1..16 {
        cpu.set_reg(r, 0x1000 + r as u16);
    }
    for r in 1..16 {
        assert_eq!(cpu.get_reg(r), 0x1000 + r as u16);
    }
}

#[test]
fn register_zero_reads_zero_whatever_is_written() {
    let mut cpu = Cpu::new();
    cpu.set_reg(0, 0xBEEF);
    assert_eq!(cpu.get_reg(0), 0);
    let cpu = run_source("LIX R0, 0x1234\nADDI R0, 5\nMOV R4, R0\nHALT\n");
    assert_eq!(cpu.get_register(0), 0);
    assert_eq!(cpu.get_register(4), 0);
}

#[test]
fn words_read_back_what_was_written() {
    let mut cpu = Cpu::new();
    for (addr, value) in [(0u16, 0x1234u16), (0x8001, 0xBEEF), (0xFFFE, 0x00FF), (0xFFFF, 0xA55A)] {
        cpu.write_word(addr, value);
        assert_eq!(cpu.read_word(addr), value);
    }
}

#[test]
fn words_are_little_endian() {
    let mut cpu = Cpu::new();
    cpu.write_word(0x2000, 0x1234);
    assert_eq!(cpu.read_byte(0x2000), 0x34);
    assert_eq!(cpu.read_byte(0x2001), 0x12);
}

#[test]
fn a_word_at_the_top_of_memory_wraps_to_address_zero() {
    let mut cpu = Cpu::new();
    cpu.write_byte(0xFFFF, 0x34);
    cpu.write_byte(0x0000, 0x12);
    assert_eq!(cpu.read_word(0xFFFF), 0x1234);
    cpu.write_word(0xFFFF, 0xABCD);
    assert_eq!(cpu.read_memory(0xFFFF), 0xCD);
    assert_eq!(cpu.read_memory(0x0000), 0xAB);
}

#[test]
fn load_program_starts_at_the_first_word_that_is_not_zero() {
    let mut cpu = Cpu::new();
    cpu.load_program(&[0, 0, 0, 0, 0x00, 0xE1]);
    assert_eq!(cpu.get_pc(), 4);
    assert_eq!(cpu.read_memory(5), 0xE1);

    let mut cpu = Cpu::new();
    cpu.load_program(&[0, 0, 0, 0]);
    assert_eq!(cpu.get_pc(), 0x0100);

    let mut cpu = Cpu::new();
    cpu.load_program(&[0, 0, 0, 7, 9]);
    assert_eq!(cpu.get_pc(), 2);

    let mut cpu = Cpu::new();
    cpu.load_program(&[0, 0, 5]);
    assert_eq!(cpu.get_pc(), 0x0100);
}

#[test]
fn load_program_drops_what_lies_beyond_memory() {
    let mut image = vec![0u8; 65536 + 4];
    image[65535] = 0x77;
    image[65536] = 0x11;
    image[65537] = 0x22;
    let mut cpu = Cpu::new();
    cpu.load_program(&image);
    assert_eq!(cpu.read_memory(65535), 0x77);
    assert_eq!(cpu.read_memory(0), 0);
    assert_eq!(cpu.get_pc(), 0xFFFE);
}

#[test]
fn addi_five_then_halt() {
    let bytes = assemble("ADDI R4,5\nHALT\n");
    assert_eq!(bytes, vec![0x05, 0x54, 0x00, 0xE1]);
    let mut cpu = Cpu::new();
    cpu.load_program(&bytes);
    assert_eq!(cpu.step(), Ok(true));
    assert_eq!(cpu.step(), Ok(false));
    assert_eq!(cpu.get_register(4), 5);
    assert_eq!(cpu.get_flags() & FLAG_Z, 0);
    assert!(cpu.is_halted());
    assert_eq!(cpu.get_cycles(), 2);
}

#[test]
fn a_halted_machine_stays_as_it_is() {
    let mut cpu = run_source("HALT\n");
    let pc = cpu.get_pc();
    let cycles = cpu.get_cycles();
    assert_eq!(cpu.step(), Ok(false));
    assert_eq!(cpu.get_pc(), pc);
    assert_eq!(cpu.get_cycles(), cycles);
}

#[test]
fn sum_of_two_loaded_words() {
    let cpu = run_source(".org 0x100\nLIX R4,0x1234\nLIX R5,0x5678\nADD R6,R4,R5\nHALT\n");
    assert_eq!(cpu.get_register(6), 0x68AC);
    assert_eq!(cpu.get_flags() & FLAG_C, 0);
    assert_eq!(cpu.get_flags() & FLAG_V, 0);
    assert_eq!(cpu.get_pc(), 0x010C);
}

#[test]
fn addition_that_wraps_sets_zero_and_carry() {
    let cpu = run_source("LIX R4,0xFFFF\nADDI R4,1\nHALT\n");
    assert_eq!(cpu.get_register(4), 0x0000);
    assert_ne!(cpu.get_flags() & FLAG_Z, 0);
    assert_ne!(cpu.get_flags() & FLAG_C, 0);
    assert_eq!(cpu.get_flags() & FLAG_V, 0);
}

#[test]
fn out_to_the_serial_port_reaches_the_output() {
    let cpu = run_source("LIX R5,0x0041\nLIX R6,0x0081\nOUT (R6),R5\nHALT\n");
    assert_eq!(cpu.get_serial_output(), &vec![0x41]);
}

#[test]
fn a_counting_loop_ends_when_the_registers_meet() {
    let mut cpu = loaded("loop: ADDI R4,1\nCMP R4,R5\nBNE loop\nHALT\n");
    cpu.set_reg(5, 3);
    let steps = run(&mut cpu);
    assert_eq!(cpu.get_register(4), 3);
    assert_eq!(steps, 3 * 3 + 1);
    assert!(cpu.is_halted());
}

#[test]
fn a_call_returns_to_the_instruction_after_it() {
    let cpu = run_source("JAL sub\nHALT\nsub: ADDI R4,7\nJR RA\n");
    assert_eq!(cpu.get_register(4), 7);
    assert_eq!(cpu.get_register(1), 4);
    assert_eq!(cpu.get_pc(), 6);
    assert!(cpu.is_halted());
}

#[test]
fn signed_overflow_sets_v() {
    let cpu = run_source("LIX R4, 0x7FFF\nADDI R4, 1\nHALT\n");
    assert_eq!(cpu.get_register(4), 0x8000);
    assert_eq!(cpu.get_flags(), FLAG_N | FLAG_V);
    let cpu = run_source("LIX R4, 0x8000\nLIX R5, 1\nSUB R6, R4, R5\nHALT\n");
    assert_eq!(cpu.get_register(6), 0x7FFF);
    assert_eq!(cpu.get_flags(), FLAG_C | FLAG_V);
}

#[test]
fn subtraction_sets_carry_when_there_is_no_borrow() {
    let cpu = run_source("LIX R4, 5\nLIX R5, 3\nSUB R6, R4, R5\nHALT\n");
    assert_eq!(cpu.get_register(6), 2);
    assert_eq!(cpu.get_flags(), FLAG_C);
    let cpu = run_source("LIX R4, 3\nLIX R5, 5\nSUB R6, R4, R5\nHALT\n");
    assert_eq!(cpu.get_register(6), 0xFFFE);
    assert_eq!(cpu.get_flags(), FLAG_N);
    let cpu = run_source("LIX R4, 5\nLIX R5, 5\nCMP R4, R5\nHALT\n");
    assert_eq!(cpu.get_flags(), FLAG_Z | FLAG_C);
}

#[test]
fn logic_clears_carry_and_overflow_and_keeps_the_interrupt_flag() {
    let cpu = run_source("EI\nSCF\nLIX R4, 0xF0F0\nLIX R5, 0x0F0F\nAND R6, R4, R5\nHALT\n");
    assert_eq!(cpu.get_register(6), 0);
    assert_eq!(cpu.get_flags(), FLAG_Z | FLAG_I);
    let cpu = run_source("LIX R4, 0xF0F0\nLIX R5, 0x0F0F\nOR R6, R4, R5\nXOR R7, R4, R6\nHALT\n");
    assert_eq!(cpu.get_register(6), 0xFFFF);
    assert_eq!(cpu.get_register(7), 0x0F0F);
    assert_eq!(cpu.get_flags(), 0);
}

#[test]
fn addi_sign_extends_its_immediate() {
    let cpu = run_source("LIX R4, 10\nADDI R4, -3\nHALT\n");
    assert_eq!(cpu.get_register(4), 7);
    let cpu = run_source("ADDI R4, -128\nHALT\n");
    assert_eq!(cpu.get_register(4), 0xFF80);
}

#[test]
fn loads_and_stores_use_their_displacements() {
    let cpu = run_source(
        "LIX R2, 0x2000\nLIX R4, 0xBEEF\nSW (R2), R4\nSW 2(R2), R4\nSW 4(R2), R4\nSW 6(R2), R4\n\
         SW -2(R2), R4\nSW -4(R2), R4\nLW R5, 6(R2)\nLW R6, -4(R2)\nLW R7, 2(R2)\nLW R8, 4(R2)\n\
         LW R9, -2(R2)\nLW R10, (R2)\nHALT\n",
    );
    for addr in [0x1FFCu16, 0x1FFE, 0x2000, 0x2002, 0x2004, 0x2006] {
        assert_eq!(cpu.read_memory(addr), 0xEF);
        assert_eq!(cpu.read_memory(addr + 1), 0xBE);
    }
    assert_eq!(cpu.read_memory(0x1FFB), 0);
    assert_eq!(cpu.read_memory(0x2008), 0);
    for r in 5..=10 {
        assert_eq!(cpu.get_register(r), 0xBEEF);
    }
}

#[test]
fn byte_loads_extend_as_they_are_named() {
    let cpu = run_source(
        "LIX R2, 0x2000\nLIX R4, 0x1280\nSB (R2), R4\nLB R5, (R2)\nLBU R6, (R2)\nLW R7, (R2)\nHALT\n",
    );
    assert_eq!(cpu.get_register(5), 0xFF80);
    assert_eq!(cpu.get_register(6), 0x0080);
    assert_eq!(cpu.get_register(7), 0x0080);
}

#[test]
fn lui_places_its_nibble_in_bits_eleven_to_eight() {
    let cpu = run_source("LUI R4, 0x30\nHALT\n");
    assert_eq!(cpu.get_register(4), 0x0300);
}

#[test]
fn unknown_function_codes_are_reported() {
    for (word, message) in [
        (0x6009u16, "Unknown load func: 0x9"),
        (0x600F, "Unknown load func: 0xF"),
        (0x7007, "Unknown store func: 0x7"),
        (0xB008, "Unknown muldiv func: 0x8"),
        (0xC00E, "Unknown misc func: 0xE"),
        (0xD004, "Unknown I/O func: 0x4"),
        (0xE800, "Unknown system func: 0x8"),
        (0xEF00, "Unknown system func: 0xF"),
    ] {
        let mut cpu = Cpu::new();
        cpu.write_word(0x0100, word);
        assert_eq!(cpu.step(), Err(message.to_string()));
        assert_eq!(cpu.get_pc(), 0x0102);
        assert_eq!(cpu.get_cycles(), 0);
        assert!(!cpu.is_halted());
    }
}

#[test]
fn every_branch_condition_and_its_opposite_are_complementary() {
    for flags in 0..=255u8 {
        for cond in 0..16u16 {
            let taken = |c: u16| {
                let cpu = execute(&[0x8000 | (c << 8) | 0x04, 0xC00D | (4 << 4)], |cpu| {
                    cpu.set_reg(4, flags as u16);
                    cpu.set_pc(0x0102);
                    cpu.step().unwrap();
                    cpu.set_pc(0x0100);
                });
                cpu.get_pc() == 0x010A
            };
            assert_ne!(taken(cond), taken(cond ^ 1), "cond {cond} flags {flags:02X}");
        }
    }
}

#[test]
fn branch_conditions_read_the_flags_they_are_named_for() {
    let branch_taken = |cond: u16, flags: u8| {
        let mut cpu = Cpu::new();
        cpu.write_word(0x0100, 0xC04D);
        cpu.write_word(0x0102, 0x8000 | (cond << 8) | 0x10);
        cpu.set_reg(4, flags as u16);
        cpu.step().unwrap();
        cpu.step().unwrap();
        cpu.get_pc() == 0x0124
    };
    assert!(branch_taken(0x0, FLAG_Z));
    assert!(!branch_taken(0x0, 0));
    assert!(branch_taken(0x2, FLAG_N));
    assert!(branch_taken(0x2, FLAG_V));
    assert!(!branch_taken(0x2, FLAG_N | FLAG_V));
    assert!(branch_taken(0x4, 0));
    assert!(branch_taken(0x5, FLAG_C));
    assert!(branch_taken(0x6, FLAG_N));
    assert!(branch_taken(0x8, FLAG_V));
    assert!(branch_taken(0xA, FLAG_C));
    assert!(branch_taken(0xC, 0));
    assert!(!branch_taken(0xC, FLAG_Z));
    assert!(branch_taken(0xE, FLAG_C));
    assert!(!branch_taken(0xE, FLAG_C | FLAG_Z));
    assert!(branch_taken(0xF, FLAG_Z));
}

#[test]
fn branches_move_by_signed_words() {
    let cpu = execute(&[0x81FE], |_| {});
    assert_eq!(cpu.get_pc(), 0x0102 - 4);
    let cpu = execute(&[0x8180], |_| {});
    assert_eq!(cpu.get_pc(), 0x0102 - 256);
    let cpu = execute(&[0x817F], |_| {});
    assert_eq!(cpu.get_pc(), 0x0102 + 254);
    let cpu = execute(&[0x807F], |_| {});
    assert_eq!(cpu.get_pc(), 0x0102);
}

#[test]
fn jumps_decode_in_the_order_jr_jalr_j() {
    let cpu = execute(&[0x9F40], |cpu| cpu.set_reg(4, 0x4000));
    assert_eq!(cpu.get_pc(), 0x4000);
    let cpu = execute(&[0x9541], |cpu| cpu.set_reg(4, 0x4000));
    assert_eq!(cpu.get_pc(), 0x4000);
    assert_eq!(cpu.get_register(5), 0x0102);
    let cpu = execute(&[0x9041], |cpu| cpu.set_reg(4, 0x4000));
    assert_eq!(cpu.get_pc(), 0x0102 + 0x41 * 2);
    let cpu = execute(&[0x97FF], |_| {});
    assert_eq!(cpu.get_pc(), 0x0102 + 2047 * 2);
    let cpu = execute(&[0x9800], |_| {});
    assert_eq!(cpu.get_pc(), 0x0102u16.wrapping_sub(4096));
    let cpu = execute(&[0x9FFF], |_| {});
    assert_eq!(cpu.get_pc(), 0x0100);
}

#[test]
fn shifts_move_one_four_or_eight_bits() {
    let shifted = |func: u16, value: u16, flags: u8| {
        let cpu = execute(&[0xC06D, 0xA540 | func], |cpu| {
            cpu.set_reg(4, value);
            cpu.set_reg(6, flags as u16);
            cpu.step().unwrap();
        });
        (cpu.get_register(5), cpu.get_flags())
    };
    assert_eq!(shifted(0x0, 0x8001, FLAG_C), (0x0002, 0));
    assert_eq!(shifted(0x1, 0x8001, 0), (0x4000, 0));
    assert_eq!(shifted(0x2, 0x8001, 0), (0xC000, FLAG_N));
    assert_eq!(shifted(0x3, 0x8001, 0), (0x0003, 0));
    assert_eq!(shifted(0x4, 0x8001, 0), (0xC000, FLAG_N));
    assert_eq!(shifted(0x7, 0x1234, 0), (0x3412, 0));
    assert_eq!(shifted(0x8, 0x1234, 0), (0x2340, 0));
    assert_eq!(shifted(0x9, 0x1234, 0), (0x0123, 0));
    assert_eq!(shifted(0xA, 0x8234, 0), (0xF823, FLAG_N));
    assert_eq!(shifted(0xB, 0x1234, 0), (0x2341, 0));
    assert_eq!(shifted(0xC, 0x1234, 0), (0x3400, 0));
    assert_eq!(shifted(0xD, 0x1234, 0), (0x0012, 0));
    assert_eq!(shifted(0xE, 0x8234, 0), (0xFF82, FLAG_N));
    assert_eq!(shifted(0xF, 0x1234, 0), (0x3412, 0));
    assert_eq!(shifted(0x1, 0x0001, FLAG_I), (0x0000, FLAG_Z | FLAG_I));
}

#[test]
fn rotations_through_carry_read_and_write_the_carry() {
    let rotated = |func: u16, value: u16, flags: u8| {
        let cpu = execute(&[0xC06D, 0xA540 | func], |cpu| {
            cpu.set_reg(4, value);
            cpu.set_reg(6, flags as u16);
            cpu.step().unwrap();
        });
        (cpu.get_register(5), cpu.get_flags())
    };
    assert_eq!(rotated(0x5, 0x8000, 0), (0x0000, FLAG_Z | FLAG_C));
    assert_eq!(rotated(0x5, 0x4000, FLAG_C), (0x8001, FLAG_N));
    assert_eq!(rotated(0x6, 0x0001, 0), (0x0000, FLAG_Z | FLAG_C));
    assert_eq!(rotated(0x6, 0x0002, FLAG_C), (0x8001, FLAG_N));
}

#[test]
fn multiplication_gives_low_and_high_words() {
    let product = |func: u16, a: u16, b: u16| {
        execute(&[0xB450 | func], |cpu| {
            cpu.set_reg(4, a);
            cpu.set_reg(5, b);
        })
        .get_register(4)
    };
    assert_eq!(product(0x0, 0x1234, 0x0010), 0x2340);
    assert_eq!(product(0x0, 0xFFFF, 0xFFFF), 0x0001);
    assert_eq!(product(0x2, 0xFFFF, 0xFFFF), 0xFFFE);
    assert_eq!(product(0x1, 0xFFFF, 0xFFFF), 0x0000);
    assert_eq!(product(0x1, 0xFFFF, 0x0002), 0xFFFF);
    assert_eq!(product(0x1, 0x8000, 0x8000), 0x4000);
    assert_eq!(product(0x1, 0x8000, 0x7FFF), 0xC000);
    assert_eq!(product(0x2, 0x8000, 0x0002), 0x0001);
}

#[test]
fn division_rounds_toward_zero() {
    let divided = |func: u16, a: u16, b: u16| {
        execute(&[0xB450 | func], |cpu| {
            cpu.set_reg(4, a);
            cpu.set_reg(5, b);
        })
        .get_register(4)
    };
    assert_eq!(divided(0x3, 7, 2), 3);
    assert_eq!(divided(0x3, (-7i16) as u16, 2), (-3i16) as u16);
    assert_eq!(divided(0x3, 7, (-2i16) as u16), (-3i16) as u16);
    assert_eq!(divided(0x3, (-7i16) as u16, (-2i16) as u16), 3);
    assert_eq!(divided(0x3, 0x8000, 0xFFFF), 0x8000);
    assert_eq!(divided(0x4, 0xFFFF, 2), 0x7FFF);
    assert_eq!(divided(0x5, 7, 2), 1);
    assert_eq!(divided(0x5, (-7i16) as u16, 2), (-1i16) as u16);
    assert_eq!(divided(0x5, 7, (-2i16) as u16), 1);
    assert_eq!(divided(0x5, 0x8000, 0xFFFF), 0);
    assert_eq!(divided(0x6, 0xFFFF, 0x0010), 0x000F);
}

#[test]
fn division_by_zero_is_defined() {
    let divided = |func: u16, a: u16| {
        execute(&[0xB450 | func], |cpu| {
            cpu.set_reg(4, a);
            cpu.set_reg(5, 0);
        })
        .get_register(4)
    };
    assert_eq!(divided(0x3, 1234), 0xFFFF);
    assert_eq!(divided(0x4, 1234), 0xFFFF);
    assert_eq!(divided(0x5, 1234), 1234);
    assert_eq!(divided(0x6, 0xFEDC), 0xFEDC);
}

#[test]
fn decimal_adjust_corrects_each_nibble() {
    let adjusted = |value: u16, flags: u8| {
        let cpu = execute(&[0xC06D, 0xB407], |cpu| {
            cpu.set_reg(4, value);
            cpu.set_reg(6, flags as u16);
            cpu.step().unwrap();
        });
        (cpu.get_register(4), cpu.get_flags())
    };
    assert_eq!(adjusted(0x0A, 0), (0x10, 0));
    assert_eq!(adjusted(0x9A, 0), (0x00, 0));
    assert_eq!(adjusted(0x15, 0), (0x15, 0));
    assert_eq!(adjusted(0x15, 0x08), (0x1B, 0x08));
    assert_eq!(adjusted(0x15, FLAG_C), (0x75, 0));
    assert_eq!(adjusted(0x00, 0), (0x00, FLAG_Z));
}

#[test]
fn push_then_pop_restores_the_value_and_the_stack_pointer() {
    let cpu = run_source("LIX R4, 0xCAFE\nPUSH R4\nPOP R5\nHALT\n");
    assert_eq!(cpu.get_register(5), 0xCAFE);
    assert_eq!(cpu.get_sp(), 0xFFFE);
    assert_eq!(cpu.read_memory(0xFFFC), 0xFE);
    assert_eq!(cpu.read_memory(0xFFFD), 0xCA);
}

#[test]
fn push_of_the_stack_pointer_stores_the_new_stack_pointer() {
    let cpu = run_source("PUSH SP\nPOP R5\nHALT\n");
    assert_eq!(cpu.get_register(5), 0xFFFC);
    assert_eq!(cpu.get_sp(), 0xFFFE);
}

#[test]
fn pop_into_the_stack_pointer_still_raises_it() {
    let cpu = run_source("LIX R4, 0x1000\nPUSH R4\nPOP SP\nHALT\n");
    assert_eq!(cpu.get_sp(), 0xFFFE);
}

#[test]
fn test_and_compare_touch_only_the_flags() {
    let cpu = run_source("LIX R4, 0x00F0\nLIX R5, 0x000F\nTEST R4, R5\nHALT\n");
    assert_eq!(cpu.get_register(4), 0x00F0);
    assert_eq!(cpu.get_flags(), FLAG_Z);
    let cpu = run_source("LIX R4, 1\nLIX R5, 2\nCMP R4, R5\nHALT\n");
    assert_eq!(cpu.get_register(4), 1);
    assert_eq!(cpu.get_flags(), FLAG_N);
}

#[test]
fn block_copy_steps_once_or_until_the_count_is_zero() {
    let source = "LIX R2, 0x3000\nLIX R4, 3\nLIX R5, text\nLIX R6, 0x2000\n";
    let cpu = run_source(&format!("{source}LDI\nHALT\ntext: .ascii \"abc\"\n"));
    assert_eq!(cpu.read_memory(0x2000), b'a');
    assert_eq!(cpu.read_memory(0x2001), 0);
    assert_eq!(cpu.get_register(4), 2);
    assert_eq!(cpu.get_register(6), 0x2001);
    assert_eq!(cpu.get_flags() & FLAG_Z, 0);

    let cpu = run_source(&format!("{source}LDIR\nHALT\ntext: .ascii \"abc\"\n"));
    assert_eq!(cpu.read_memory(0x2000), b'a');
    assert_eq!(cpu.read_memory(0x2001), b'b');
    assert_eq!(cpu.read_memory(0x2002), b'c');
    assert_eq!(cpu.read_memory(0x2003), 0);
    assert_eq!(cpu.get_register(4), 0);
    assert_eq!(cpu.get_register(6), 0x2003);
    assert_ne!(cpu.get_flags() & FLAG_Z, 0);
}

#[test]
fn block_copy_downward_moves_the_pointers_down() {
    let cpu = run_source(
        "LIX R4, 2\nLIX R5, last\nLIX R6, 0x2001\nLDDR\nHALT\n.db 0x11\nlast: .db 0x22\n",
    );
    assert_eq!(cpu.read_memory(0x2001), 0x22);
    assert_eq!(cpu.read_memory(0x2000), 0x11);
    assert_eq!(cpu.get_register(6), 0x1FFF);
    assert_eq!(cpu.get_register(4), 0);

    let cpu = run_source("LIX R4, 1\nLIX R5, last\nLIX R6, 0x2001\nLDD\nHALT\nlast: .db 0x22\n");
    assert_eq!(cpu.read_memory(0x2001), 0x22);
    assert_eq!(cpu.get_register(6), 0x2000);
    assert_ne!(cpu.get_flags() & FLAG_Z, 0);
}

#[test]
fn a_block_copy_with_a_zero_count_copies_nothing() {
    let cpu = run_source("LIX R5, 0x0000\nLIX R6, 0x2000\nLDIR\nHALT\n");
    assert_eq!(cpu.read_memory(0x2000), 0);
    assert_eq!(cpu.get_register(6), 0x2000);
    assert_ne!(cpu.get_flags() & FLAG_Z, 0);
}

#[test]
fn search_stops_at_the_first_match() {
    let source = "LIX R5, text\nLIX R6, 5\nCPIR\nHALT\ntext: .ascii \"hello\"\n";
    let cpu = run_source(&format!("LIX R4, 0x6C\n{source}"));
    assert_ne!(cpu.get_flags() & FLAG_Z, 0);
    assert_eq!(cpu.get_register(5), 16 + 2);
    assert_eq!(cpu.get_register(6), 3);

    let cpu = run_source(&format!("LIX R4, 0x7A\n{source}"));
    assert_eq!(cpu.get_flags() & FLAG_Z, 0);
    assert_eq!(cpu.get_register(5), 16 + 5);
    assert_eq!(cpu.get_register(6), 0);
}

#[test]
fn fill_writes_the_pattern_over_the_range() {
    let cpu = run_source("LIX R4, 4\nLIX R5, 0x12AB\nLIX R6, 0x2000\nFILL\nHALT\n");
    for addr in 0x2000..0x2004u16 {
        assert_eq!(cpu.read_memory(addr), 0xAB);
    }
    assert_eq!(cpu.read_memory(0x1FFF), 0);
    assert_eq!(cpu.read_memory(0x2004), 0);
    assert_eq!(cpu.get_register(6), 0x2004);
    assert_eq!(cpu.get_register(4), 0);
}

#[test]
fn fill_wraps_around_the_top_of_memory() {
    let cpu = run_source("LIX R4, 3\nLIX R5, 0x77\nLIX R6, 0xFFFE\nFILL\nHALT\n");
    assert_eq!(cpu.read_memory(0xFFFE), 0x77);
    assert_eq!(cpu.read_memory(0xFFFF), 0x77);
    assert_eq!(cpu.read_memory(0x0000), 0x77);
    assert_eq!(cpu.get_register(6), 0x0001);
}

#[test]
fn exx_twice_restores_every_register_and_flag() {
    let mut cpu = Cpu::new();
    for r in 1..16 {
        cpu.set_reg(r, 0x100 * r as u16 + 7);
    }
    cpu.write_word(0x0100, 0xC00B);
    cpu.write_word(0x0102, 0xC00B);
    let before: Vec<u16> = (0..16).map(|r| cpu.get_register(r)).collect();
    let flags = cpu.get_flags();
    cpu.step().unwrap();
    for r in 4..12 {
        assert_eq!(cpu.get_register(r), 0);
    }
    for r in (1..4).chain(12..16) {
        assert_eq!(cpu.get_register(r), before[r]);
    }
    cpu.step().unwrap();
    let after: Vec<u16> = (0..16).map(|r| cpu.get_register(r)).collect();
    assert_eq!(before, after);
    assert_eq!(cpu.get_flags(), flags);
}

#[test]
fn the_alternate_bank_is_seen_only_through_exx() {
    let cpu = run_source("LIX R4, 0x1111\nEXX\nLIX R4, 0x2222\nEXX\nHALT\n");
    assert_eq!(cpu.get_register(4), 0x1111);
}

#[test]
fn flags_move_to_and_from_registers() {
    let cpu = run_source("LIX R4, 0x12F4\nSETF R4\nGETF R5\nHALT\n");
    assert_eq!(cpu.get_flags(), 0xF4);
    assert_eq!(cpu.get_register(5), 0x00F4);
}

#[test]
fn system_instructions_set_and_clear_their_flags() {
    let cpu = run_source("EI\nSCF\nHALT\n");
    assert_eq!(cpu.get_flags(), FLAG_I | FLAG_C);
    let cpu = run_source("EI\nSCF\nDI\nCCF\nHALT\n");
    assert_eq!(cpu.get_flags(), 0);
    let cpu = run_source("CCF\nNOP\nHALT\n");
    assert_eq!(cpu.get_flags(), FLAG_C);
}

#[test]
fn software_interrupt_pushes_the_return_address_and_reti_pops_it() {
    let mut cpu = Cpu::new();
    cpu.write_word(0x0020, 0x5401);
    cpu.write_word(0x0022, 0xE400);
    cpu.write_word(0x0100, 0xE510);
    cpu.write_word(0x0102, 0xE100);
    assert_eq!(cpu.step(), Ok(true));
    assert_eq!(cpu.get_pc(), 0x0020);
    assert_eq!(cpu.get_sp(), 0xFFFC);
    assert_eq!(cpu.read_word(0xFFFC), 0x0102);
    assert_eq!(cpu.get_flags() & FLAG_I, 0);
    run(&mut cpu);
    assert_eq!(cpu.get_register(4), 1);
    assert_eq!(cpu.get_pc(), 0x0104);
    assert_eq!(cpu.get_sp(), 0xFFFE);
    assert_eq!(cpu.get_flags() & FLAG_I, FLAG_I);
}

#[test]
fn extended_arithmetic_takes_a_full_immediate() {
    let run_extended = |sub: u16, a: u16, imm: u16| {
        let cpu = execute(&[0xF540 | sub, imm], |cpu| cpu.set_reg(4, a));
        (cpu.get_register(5), cpu.get_flags(), cpu.get_pc())
    };
    assert_eq!(run_extended(0x0, 0x1000, 0x0234), (0x1234, 0, 0x0104));
    assert_eq!(run_extended(0x1, 0x1000, 0x1000), (0x0000, FLAG_Z | FLAG_C, 0x0104));
    assert_eq!(run_extended(0x2, 0xFF00, 0x0FF0), (0x0F00, 0, 0x0104));
    assert_eq!(run_extended(0x3, 0xFF00, 0x0FF0), (0xFFF0, FLAG_N, 0x0104));
    assert_eq!(run_extended(0x4, 0xFF00, 0xFFFF), (0x00FF, 0, 0x0104));
    assert_eq!(run_extended(0x7, 0, 0xABCD), (0xABCD, 0, 0x0104));
    assert_eq!(run_extended(0xD, 0x0001, 0x0004), (0x0010, 0, 0x0104));
    assert_eq!(run_extended(0xD, 0x0001, 0x0014), (0x0010, 0, 0x0104));
    assert_eq!(run_extended(0xE, 0x8000, 0x000F), (0x0001, 0, 0x0104));
    assert_eq!(run_extended(0xF, 0x8000, 0x000F), (0xFFFF, FLAG_N, 0x0104));
}

#[test]
fn extended_loads_stores_and_jumps() {
    let cpu = execute(&[0xF546, 0x0010], |cpu| {
        cpu.set_reg(4, 0x2000);
        cpu.set_reg(5, 0xBEEF);
    });
    assert_eq!(cpu.read_word(0x2010), 0xBEEF);
    let cpu = execute(&[0xF545, 0xFFFF], |cpu| {
        cpu.set_reg(4, 0x2001);
        cpu.write_word(0x2000, 0x1234);
    });
    assert_eq!(cpu.get_register(5), 0x1234);
    let cpu = execute(&[0xF008, 0x4000], |_| {});
    assert_eq!(cpu.get_pc(), 0x4000);
    let cpu = execute(&[0xF309, 0x4000], |_| {});
    assert_eq!(cpu.get_pc(), 0x4000);
    assert_eq!(cpu.get_register(3), 0x0104);
    let cpu = execute(&[0xF50A, 0x0005], |cpu| cpu.set_reg(5, 5));
    assert_eq!(cpu.get_flags(), FLAG_Z | FLAG_C);
    assert_eq!(cpu.get_register(5), 5);
}

#[test]
fn not_and_neg_are_built_from_xor_and_sub() {
    let cpu = run_source("LIX R5, 0x00FF\nNOT R4, R5\nNEG R6, R5\nHALT\n");
    assert_eq!(cpu.get_register(4), 0xFF00);
    assert_eq!(cpu.get_register(6), 0xFF01);
}

#[test]
fn the_serial_status_port_always_shows_ready() {
    let cpu = run_source("INI R4, 0x80\nLIX R5, 0x80\nIN R6, (R5)\nOUTI 0x80, R0\nINI R7, 0x80\nHALT\n");
    assert_eq!(cpu.get_register(4), 0x02);
    assert_eq!(cpu.get_register(6), 0x02);
    assert_eq!(cpu.get_register(7), 0x02);
}

#[test]
fn the_serial_data_port_reads_queued_keys_in_order() {
    let mut cpu = loaded("INI R4, 0x81\nINI R5, 0x81\nINI R6, 0x81\nHALT\n");
    cpu.send_key(b'h');
    cpu.send_key(b'i');
    run(&mut cpu);
    assert_eq!(cpu.get_register(4), b'h' as u16);
    assert_eq!(cpu.get_register(5), b'i' as u16);
    assert_eq!(cpu.get_register(6), 0);
}

#[test]
fn other_ports_are_plain_cells() {
    let cpu = run_source("LIX R4, 0x1255\nOUTI 0x10, R4\nINI R5, 0x10\nINI R6, 0x11\nHALT\n");
    assert_eq!(cpu.get_register(5), 0x55);
    assert_eq!(cpu.get_register(6), 0);
    assert!(cpu.get_serial_output().is_empty());
}

#[test]
fn short_port_forms_take_the_port_from_the_rs1_nibble() {
    let cpu = execute(&[0xD531, 0xD430], |cpu| {
        cpu.set_reg(5, 0x0099);
        cpu.step().unwrap();
    });
    assert_eq!(cpu.get_register(4), 0x99);
}

#[test]
fn serial_output_can_be_drained() {
    let mut cpu = run_source("LIX R5, 0x48\nOUTI 0x81, R5\nLIX R5, 0x69\nOUTI 0x81, R5\nHALT\n");
    assert_eq!(cpu.get_serial_output(), &vec![b'H', b'i']);
    cpu.clear_serial_output();
    assert!(cpu.get_serial_output().is_empty());
}

#[test]
fn reset_keeps_the_memory_and_restores_the_rest() {
    let mut cpu = run_source("LIX R4, 5\nEXX\nLIX R4, 6\nSCF\nOUTI 0x10, R4\nOUTI 0x81, R4\nHALT\n");
    cpu.send_key(1);
    cpu.set_trace(true);
    cpu.reset();
    assert_eq!(cpu.get_pc(), 0x0100);
    assert_eq!(cpu.get_sp(), 0xFFFE);
    assert_eq!(cpu.get_register(4), 0);
    assert_eq!(cpu.get_flags(), 0);
    assert_eq!(cpu.get_cycles(), 0);
    assert!(!cpu.is_halted());
    assert!(cpu.is_tracing());
    assert!(cpu.get_serial_output().is_empty());
    assert_eq!(cpu.read_memory(0), 0x07);
    cpu.set_pc(0);
    run(&mut cpu);
    assert_eq!(cpu.get_register(4), 6);
    cpu.reset();
    cpu.set_pc(0);
    cpu.write_word(0, 0xF40B);
    cpu.write_word(2, 0x0081);
    cpu.step().unwrap();
    assert_eq!(cpu.get_register(4), 0);
    cpu.write_word(4, 0xF40B);
    cpu.write_word(6, 0x0010);
    cpu.step().unwrap();
    assert_eq!(cpu.get_register(4), 0);
}

#[test]
fn trace_and_quiet_are_only_settings() {
    let mut cpu = Cpu::new();
    assert!(!cpu.is_tracing());
    assert!(!cpu.is_quiet());
    cpu.set_trace(true);
    cpu.set_quiet(true);
    assert!(cpu.is_tracing());
    assert!(cpu.is_quiet());
    cpu.set_trace(false);
    assert!(!cpu.is_tracing());
    assert!(cpu.is_quiet());
}

#[test]
fn the_program_counter_wraps_at_the_top_of_memory() {
    let mut cpu = Cpu::new();
    cpu.write_byte(0xFFFF, 0x00);
    cpu.write_byte(0x0000, 0xE0);
    cpu.set_pc(0xFFFF);
    assert_eq!(cpu.step(), Ok(true));
    assert_eq!(cpu.get_pc(), 0x0001);
}

#[test]
fn every_step_counts_one_cycle() {
    let cpu = run_source("NOP\nLIX R4, 1\nLIX R5, 0x10\nLIX R6, 0x2000\nFILL\nHALT\n");
    assert_eq!(cpu.get_cycles(), 6);
}
