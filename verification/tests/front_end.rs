use sampo::isa::{instruction_bytes, lookup_mnemonic, Mnemonic};
use sampo::lexer::{lookup_register, parse_radix, parse_register, Lexer, NumberError, Token};
use sampo::parser::{DirectiveArg, Operand, Parser, Statement};
use sampo::text::{str_eq, to_chars};

fn tokens(source: &str) -> Vec<Token> {
    Lexer::new(source).tokenize().unwrap()
}

fn lex_error(source: &str) -> String {
    Lexer::new(source).tokenize().unwrap_err()
}

fn statements(source: &str) -> Vec<Statement> {
    Parser::new(tokens(source)).parse().unwrap().statements
}

fn parse_error(source: &str) -> String {
    match Parser::new(tokens(source)).parse() {
        Ok(_) => panic!("the source parses"),
        Err(e) => e,
    }
}

fn ident(name: &str) -> Token {
    Token::Ident(name.to_string())
}

#[test]
fn an_instruction_line_becomes_its_tokens() {
    assert_eq!(
        tokens("ADDI R4, 5\n"),
        vec![ident("ADDI"), Token::Register(4), Token::Comma, Token::Number(5), Token::Newline, Token::Eof]
    );
}

#[test]
fn the_token_stream_always_ends_with_eof() {
    assert_eq!(tokens(""), vec![Token::Eof]);
    assert_eq!(tokens("   \t "), vec![Token::Eof]);
    assert_eq!(tokens("; only a comment"), vec![Token::Eof]);
    let mut lexer = Lexer::new("NOP");
    assert_eq!(lexer.tokenize().unwrap(), vec![ident("NOP"), Token::Eof]);
    assert_eq!(lexer.tokenize().unwrap(), vec![Token::Eof]);
}

#[test]
fn punctuation_has_its_own_tokens() {
    assert_eq!(
        tokens(",:()+-"),
        vec![
            Token::Comma,
            Token::Colon,
            Token::LParen,
            Token::RParen,
            Token::Plus,
            Token::Minus,
            Token::Eof
        ]
    );
}

#[test]
fn comments_run_to_the_end_of_the_line() {
    assert_eq!(
        tokens("NOP ; does nothing\nHALT"),
        vec![ident("NOP"), Token::Newline, ident("HALT"), Token::Eof]
    );
    assert_eq!(tokens("; a\r\n; b\rX"), vec![Token::Newline, Token::Newline, ident("X"), Token::Eof]);
}

#[test]
fn every_kind_of_line_break_is_one_newline() {
    assert_eq!(tokens("\n"), vec![Token::Newline, Token::Eof]);
    assert_eq!(tokens("\r\n"), vec![Token::Newline, Token::Eof]);
    assert_eq!(tokens("\r"), vec![Token::Newline, Token::Eof]);
    assert_eq!(tokens("\n\r"), vec![Token::Newline, Token::Newline, Token::Eof]);
}

#[test]
fn numbers_are_read_in_three_bases() {
    assert_eq!(tokens("42")[0], Token::Number(42));
    assert_eq!(tokens("0")[0], Token::Number(0));
    assert_eq!(tokens("007")[0], Token::Number(7));
    assert_eq!(tokens("0x1F")[0], Token::Number(31));
    assert_eq!(tokens("0XfF")[0], Token::Number(255));
    assert_eq!(tokens("0b1010")[0], Token::Number(10));
    assert_eq!(tokens("0B11")[0], Token::Number(3));
    assert_eq!(tokens("1_000")[0], Token::Number(1000));
    assert_eq!(tokens("0x_FF_FF")[0], Token::Number(65535));
    assert_eq!(tokens("2147483647")[0], Token::Number(i32::MAX));
    assert_eq!(tokens("0x7FFFFFFF")[0], Token::Number(i32::MAX));
}

#[test]
fn a_minus_before_a_digit_makes_a_negative_number() {
    assert_eq!(tokens("-5"), vec![Token::Number(-5), Token::Eof]);
    assert_eq!(tokens("-0x10"), vec![Token::Number(-16), Token::Eof]);
    assert_eq!(tokens("- 5"), vec![Token::Minus, Token::Number(5), Token::Eof]);
    assert_eq!(tokens("-x"), vec![Token::Minus, ident("x"), Token::Eof]);
    assert_eq!(tokens("-2147483647")[0], Token::Number(-i32::MAX));
}

#[test]
fn character_literals_are_numbers() {
    assert_eq!(tokens("'A'"), vec![Token::Number(65), Token::Eof]);
    assert_eq!(tokens("' '"), vec![Token::Number(32), Token::Eof]);
    assert_eq!(tokens("'''"), vec![Token::Number(39), Token::Eof]);
    assert_eq!(tokens("'é'"), vec![Token::Number(233), Token::Eof]);
}

#[test]
fn malformed_numbers_are_reported_with_their_line() {
    assert_eq!(lex_error("0x"), "Invalid number at line 1: cannot parse integer from empty string");
    assert_eq!(lex_error("\n12ab"), "Invalid number at line 2: invalid digit found in string");
    assert_eq!(lex_error("0b102"), "Invalid number at line 1: invalid digit found in string");
    assert_eq!(
        lex_error("\n\n2147483648"),
        "Invalid number at line 3: number too large to fit in target type"
    );
    assert_eq!(
        lex_error("-2147483648"),
        "Invalid number at line 1: number too large to fit in target type"
    );
}

#[test]
fn number_messages_are_those_of_the_standard_parser() {
    for (text, radix) in [("", 10), ("12ab", 10), ("99999999999", 10), ("2", 2), ("80000000", 16)] {
        let ours = parse_radix(&text.chars().collect(), radix as u64);
        let theirs = i32::from_str_radix(text, radix);
        let message = match ours {
            Err(NumberError::Empty) => "cannot parse integer from empty string",
            Err(NumberError::InvalidDigit) => "invalid digit found in string",
            Err(NumberError::Overflow) => "number too large to fit in target type",
            Ok(_) => panic!("{text} parses"),
        };
        assert_eq!(message, theirs.unwrap_err().to_string());
    }
    for (text, radix) in [("0", 10), ("2147483647", 10), ("7fffFFFF", 16), ("101", 2), ("00012", 10)] {
        assert_eq!(parse_radix(&text.chars().collect(), radix as u64).ok(), i32::from_str_radix(text, radix).ok());
    }
}

#[test]
fn the_first_bad_digit_or_overflow_decides_the_message() {
    assert_eq!(parse_radix(&"99999999999a".chars().collect(), 10), Err(NumberError::Overflow));
    assert_eq!(parse_radix(&"a99999999999".chars().collect(), 10), Err(NumberError::InvalidDigit));
}

#[test]
fn malformed_character_literals_are_reported() {
    assert_eq!(lex_error("'"), "Unexpected end of character literal");
    assert_eq!(lex_error("'a"), "Expected closing quote at line 1");
    assert_eq!(lex_error("\n'ab'"), "Expected closing quote at line 2");
}

#[test]
fn strings_translate_their_escapes() {
    assert_eq!(tokens("\"hi\"")[0], Token::StringLit("hi".to_string()));
    assert_eq!(tokens("\"\"")[0], Token::StringLit(String::new()));
    assert_eq!(
        tokens(r#""a\n\r\t\0\\\"\q""#)[0],
        Token::StringLit("a\n\r\t\0\\\"q".to_string())
    );
    assert_eq!(tokens("\"a;b\"")[0], Token::StringLit("a;b".to_string()));
    assert_eq!(tokens("\"a\nb\" x"), vec![Token::StringLit("a\nb".to_string()), ident("x"), Token::Eof]);
}

#[test]
fn unterminated_strings_are_reported() {
    assert_eq!(lex_error("\"abc"), "Unterminated string at line 1");
    assert_eq!(lex_error("\n\"abc\\"), "Unterminated escape at line 2");
}

#[test]
fn directives_are_lower_cased() {
    assert_eq!(tokens(".ORG"), vec![Token::Directive("org".to_string()), Token::Eof]);
    assert_eq!(tokens(".Asciz"), vec![Token::Directive("asciz".to_string()), Token::Eof]);
    assert_eq!(tokens(". x"), vec![Token::Directive(String::new()), ident("x"), Token::Eof]);
}

#[test]
fn register_names_and_aliases_are_read_in_any_case() {
    for (n, (plain, alias)) in [
        ("R0", "ZERO"), ("R1", "RA"), ("R2", "SP"), ("R3", "GP"), ("R4", "A0"), ("R5", "A1"),
        ("R6", "A2"), ("R7", "A3"), ("R8", "T0"), ("R9", "T1"), ("R10", "T2"), ("R11", "T3"),
        ("R12", "S0"), ("R13", "S1"), ("R14", "S2"), ("R15", "S3"),
    ]
    .iter()
    .enumerate()
    {
        assert_eq!(lookup_register(plain), Some(n as u8));
        assert_eq!(lookup_register(alias), Some(n as u8));
        assert_eq!(parse_register(&plain.to_lowercase()), Some(n as u8));
        assert_eq!(parse_register(&alias.to_lowercase()), Some(n as u8));
        assert_eq!(tokens(&alias.to_lowercase()), vec![Token::Register(n as u8), Token::Eof]);
    }
    assert_eq!(lookup_register("r4"), None);
    assert_eq!(parse_register("R16"), None);
    assert_eq!(parse_register("R"), None);
    assert_eq!(parse_register(""), None);
}

#[test]
fn identifiers_keep_their_spelling() {
    assert_eq!(tokens("Loop_1"), vec![ident("Loop_1"), Token::Eof]);
    assert_eq!(tokens("_x"), vec![ident("_x"), Token::Eof]);
    assert_eq!(tokens("R4x"), vec![ident("R4x"), Token::Eof]);
    assert_eq!(tokens("größe"), vec![ident("größe"), Token::Eof]);
    assert_eq!(tokens("a²"), vec![ident("a²"), Token::Eof]);
}

#[test]
fn characters_that_start_no_token_are_reported() {
    assert_eq!(lex_error("NOP\n  @"), "Unexpected character '@' at line 2");
    assert_eq!(lex_error("#"), "Unexpected character '#' at line 1");
    assert_eq!(lex_error("²"), "Unexpected character '²' at line 1");
}

#[test]
fn labels_instructions_and_directives_parse() {
    let parsed = statements("start: ADDI R4, 5\n.org 0x100\n  halt\n");
    assert_eq!(parsed.len(), 4);
    assert!(matches!(&parsed[0], Statement::Label(name) if name == "start"));
    match &parsed[1] {
        Statement::Instruction { mnemonic, operands } => {
            assert_eq!(mnemonic, "ADDI");
            assert!(matches!(operands[..], [Operand::Register(4), Operand::Immediate(5)]));
        }
        other => panic!("{other:?}"),
    }
    match &parsed[2] {
        Statement::Directive { name, args } => {
            assert_eq!(name, "org");
            assert!(matches!(args[..], [DirectiveArg::Number(0x100)]));
        }
        other => panic!("{other:?}"),
    }
    match &parsed[3] {
        Statement::Instruction { mnemonic, operands } => {
            assert_eq!(mnemonic, "HALT");
            assert!(operands.is_empty());
        }
        other => panic!("{other:?}"),
    }
}

fn operands_of(source: &str) -> Vec<Operand> {
    match statements(source).pop() {
        Some(Statement::Instruction { operands, .. }) => operands,
        other => panic!("{other:?}"),
    }
}

#[test]
fn indirect_operands_come_in_three_spellings() {
    assert!(matches!(operands_of("LW R1, (R2)")[..], [Operand::Register(1), Operand::Indirect(2, 0)]));
    assert!(matches!(operands_of("LW R1, (R2 + 4)")[..], [_, Operand::Indirect(2, 4)]));
    assert!(matches!(operands_of("LW R1, (R2 - 4)")[..], [_, Operand::Indirect(2, -4)]));
    assert!(matches!(operands_of("LW R1, 6(R2)")[..], [_, Operand::Indirect(2, 6)]));
    assert!(matches!(operands_of("LW R1, -2(SP)")[..], [_, Operand::Indirect(2, -2)]));
    assert!(matches!(operands_of("LW R1, (R2 +)")[..], [_, Operand::Indirect(2, 0)]));
    assert!(matches!(operands_of("LW R1, (R2 -)")[..], [_, Operand::Indirect(2, 0)]));
}

#[test]
fn operands_may_be_labels_numbers_and_registers() {
    let ops = operands_of("X R1 2 three - 4, -5");
    assert_eq!(ops.len(), 5);
    assert!(matches!(ops[0], Operand::Register(1)));
    assert!(matches!(ops[1], Operand::Immediate(2)));
    assert!(matches!(&ops[2], Operand::Label(name) if name == "three"));
    assert!(matches!(ops[3], Operand::Immediate(-4)));
    assert!(matches!(ops[4], Operand::Immediate(-5)));
}

#[test]
fn mnemonics_are_upper_cased_by_the_parser() {
    match &statements("addi r4, 1")[0] {
        Statement::Instruction { mnemonic, .. } => assert_eq!(mnemonic, "ADDI"),
        other => panic!("{other:?}"),
    }
}

#[test]
fn directive_arguments_are_numbers_strings_and_names() {
    match &statements(".db 1, \"two\", three -4")[0] {
        Statement::Directive { name, args } => {
            assert_eq!(name, "db");
            assert_eq!(args.len(), 4);
            assert!(matches!(args[0], DirectiveArg::Number(1)));
            assert!(matches!(&args[1], DirectiveArg::String(s) if s == "two"));
            assert!(matches!(&args[2], DirectiveArg::Ident(s) if s == "three"));
            assert!(matches!(args[3], DirectiveArg::Number(-4)));
        }
        other => panic!("{other:?}"),
    }
}

#[test]
fn tokens_that_start_no_statement_are_reported() {
    assert_eq!(parse_error("R4"), "Unexpected token: Register(4)");
    assert_eq!(parse_error("5"), "Unexpected token: Number(5)");
    assert_eq!(parse_error("NOP )"), "Unexpected token: RParen");
    assert_eq!(parse_error(".db R4"), "Unexpected token: Register(4)");
    assert_eq!(parse_error("\"text\""), "Unexpected token: StringLit(\"text\")");
}

#[test]
fn malformed_indirect_operands_are_reported() {
    assert_eq!(parse_error("LW R1, (5)"), "Expected register in indirect addressing");
    assert_eq!(parse_error("LW R1, 4(x)"), "Expected register in indirect addressing");
    assert_eq!(parse_error("LW R1, (R2"), "Expected RParen, got Eof");
    assert_eq!(parse_error("LW R1, 4(R2,"), "Expected RParen, got Comma");
    assert_eq!(parse_error("LW R1, (R2 + x)"), "Expected RParen, got Ident(\"x\")");
    assert_eq!(parse_error("ADDI R1, - x"), "Expected number after minus");
    assert_eq!(parse_error("LW R1, (R2 -4)"), "Expected RParen, got Number(-4)");
}

#[test]
fn parsing_stops_at_the_first_eof() {
    let mut parser = Parser::new(vec![ident("NOP"), Token::Eof, ident("HALT")]);
    assert_eq!(parser.parse().unwrap().statements.len(), 1);
    let mut parser = Parser::new(vec![ident("NOP"), Token::Newline, ident("HALT")]);
    assert_eq!(parser.parse().unwrap().statements.len(), 2);
    let mut parser = Parser::new(vec![]);
    assert!(parser.parse().unwrap().statements.is_empty());
}

#[test]
fn negating_the_smallest_number_wraps() {
    let mut parser =
        Parser::new(vec![ident("X"), Token::Minus, Token::Number(i32::MIN), Token::Eof]);
    match &parser.parse().unwrap().statements[0] {
        Statement::Instruction { operands, .. } => {
            assert!(matches!(operands[..], [Operand::Immediate(i32::MIN)]))
        }
        other => panic!("{other:?}"),
    }
}

#[test]
fn every_mnemonic_is_found_by_its_upper_case_name() {
    assert_eq!(lookup_mnemonic("ADD"), Some(Mnemonic::Add));
    assert_eq!(lookup_mnemonic("CMP"), Some(Mnemonic::Compare));
    assert_eq!(lookup_mnemonic("CMPIX"), Some(Mnemonic::CompareIx));
    assert_eq!(lookup_mnemonic("BLS"), Some(Mnemonic::Bls));
    assert_eq!(lookup_mnemonic("SRAX"), Some(Mnemonic::Srax));
    assert_eq!(lookup_mnemonic("add"), None);
    assert_eq!(lookup_mnemonic("ADDS"), None);
    assert_eq!(lookup_mnemonic(""), None);
}

#[test]
fn extended_mnemonics_take_four_bytes_and_all_others_two() {
    for name in [
        "LIX", "ADDIX", "SUBIX", "ANDIX", "ORIX", "XORIX", "LWX", "SWX", "JX", "JALX", "CMPIX",
        "INX", "OUTX", "SLLX", "SRLX", "SRAX", "INI", "OUTI", "JAL", "NOT",
    ] {
        assert_eq!(instruction_bytes(lookup_mnemonic(name)), 4, "{name}");
    }
    for name in ["ADD", "ADDI", "LW", "BEQ", "J", "JR", "JALR", "NEG", "HALT", "IN", "OUT", "BOGUS"] {
        assert_eq!(instruction_bytes(lookup_mnemonic(name)), 2, "{name}");
    }
}

#[test]
fn strings_compare_by_their_characters() {
    assert!(str_eq("org", "org"));
    assert!(!str_eq("org", "orgs"));
    assert!(!str_eq("org", "orG"));
    assert!(str_eq("", ""));
    assert_eq!(to_chars("aé"), vec!['a', 'é']);
}

#[test]
fn case_is_folded_the_unicode_way_beyond_ascii() {
    assert_eq!(parse_register("\u{17f}p"), Some(2));
    assert_eq!(parse_register("\u{17f}P"), Some(2));
    assert_eq!(tokens(".\u{d6}RG"), vec![Token::Directive("\u{f6}rg".to_string()), Token::Eof]);
    match &statements("stra\u{df}e")[0] {
        Statement::Instruction { mnemonic, .. } => assert_eq!(mnemonic, "STRASSE"),
        other => panic!("{other:?}"),
    }
}
