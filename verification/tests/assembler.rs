use belle::asm_config::{declare_config, Args};
use belle::assembler::{
    assemble_line, defines_variable, errors_generated, mentions_hlt, operands, rom_image, shared_name, warns_no_hlt, LineResult,
};
use belle::checks::{check_instruction, verify};
use belle::diagnostics::{can_report, error_report, split_code_comment, Error};
use belle::encode::{encode_instruction, select_mnemonic_of, Form};
use belle::isa::{decode, Argument, Instruction};
use belle::lexer::{lex_would_abort, Lexer};
use belle::rom::{rom_version, words_from_bytes, RomVersion};
use belle::suggest::levenshtein_distance;
use belle::symbol_table::{load_labels, process_start, process_variables};
use belle::symbols::SymbolTable;
use belle::text::is_alphanumeric;
use belle::tokens::Token;

fn lex(line: &str, symbols: &SymbolTable) -> Result<Vec<Token>, usize> {
    let mut lexer = Lexer::new(line, 1);
    let ok = lexer.lex(symbols).is_ok();
    if ok {
        Ok(std::mem::take(&mut lexer.tokens))
    } else {
        Err(lexer.errors.len())
    }
}

fn chars(s: &str) -> Vec<char> {
    s.chars().collect()
}

fn program() -> Vec<String> {
    vec![
        ".start $200".to_string(),
        "x = 5".to_string(),
        "main:".to_string(),
        "add r1, r2".to_string(),
        ".word 7".to_string(),
        "end:".to_string(),
        "hlt".to_string(),
    ]
}

fn symbols_of(lines: &[String]) -> SymbolTable {
    let mut symbols = SymbolTable::new();
    process_start(lines, &mut symbols).unwrap();
    process_variables(lines, &mut symbols).unwrap();
    load_labels(lines, &mut symbols).unwrap();
    symbols
}

#[test]
fn lexes_an_instruction_line() {
    let symbols = SymbolTable::new();
    let tokens = lex("add r1, r2", &symbols).unwrap();
    assert!(tokens == vec![
        Token::Ident("add".to_string()),
        Token::Register(1),
        Token::Comma,
        Token::Register(2)
    ]);
}

#[test]
fn lexes_literals_directives_and_addresses() {
    let symbols = SymbolTable::new();
    let tokens = lex("mov r0, -3 ; comment", &symbols).unwrap();
    assert!(tokens == vec![Token::Ident("mov".to_string()), Token::Register(0), Token::Comma, Token::Literal(131)]);
    let tokens = lex(".word [0x10]", &symbols).unwrap();
    assert!(tokens == vec![Token::Directive("word".to_string()), Token::MemAddr(16)]);
    let tokens = lex("ld r1, &r3", &symbols).unwrap();
    assert!(tokens[3] == Token::RegPointer(3));
    let tokens = lex(".asciiz \"hi\"", &symbols).unwrap();
    assert!(tokens[1] == Token::Asciiz("hi".to_string()));
    let tokens = lex("loop: jmp loop", &symbols).unwrap();
    assert!(tokens == vec![Token::Ident("jmp".to_string()), Token::Ident("loop".to_string())]);
}

#[test]
fn lexer_reports_unknown_characters_with_their_column() {
    let symbols = SymbolTable::new();
    let mut lexer = Lexer::new("add r1, @", 7);
    assert!(lexer.lex(&symbols).is_err());
    match &lexer.errors[0] {
        Error::UnknownCharacter(m, line, place, tip) => {
            assert_eq!(m, "character '@' not recognized");
            assert_eq!(*line, 7);
            assert_eq!(*place, Some(9));
            assert!(tip.is_none());
        }
        other => panic!("unexpected {:?}", other),
    }
}

#[test]
fn quoted_characters_read_on_to_the_end_of_the_line() {
    let symbols = SymbolTable::new();
    let mut lexer = Lexer::new("'a'", 1);
    assert!(lexer.lex(&symbols).is_err());
    assert!(lexer.tokens == vec![Token::Literal(97)]);
    assert_eq!(lexer.errors.len(), 1);
}

#[test]
fn lexer_reads_variables_through_brackets() {
    let lines = vec!["x = 5".to_string()];
    let mut symbols = SymbolTable::new();
    process_variables(&lines, &mut symbols).unwrap();
    let tokens = lex("ld r0, [x]", &symbols).unwrap();
    assert!(tokens[3] == Token::MemAddr(5));
}

#[test]
fn lexer_cannot_finish_a_trailing_ampersand() {
    let symbols = SymbolTable::new();
    assert!(lex_would_abort("add r1, &", 1, &symbols));
    assert!(!lex_would_abort("add r1, &r1", 1, &symbols));
}

#[test]
fn symbol_passes_read_start_variables_and_labels() {
    let symbols = symbols_of(&program());
    assert_eq!(symbols.start, 200);
    assert_eq!(symbols.lookup_variable(&chars("x")), Some((1, 5)));
    assert_eq!(symbols.lookup_label(&chars("main")), Some((2, 200)));
    assert_eq!(symbols.lookup_label(&chars("end")), Some((5, 202)));
    assert_eq!(symbols.lookup_label(&chars("x")), None);
}

#[test]
fn start_above_511_is_an_error() {
    let lines = vec!["".to_string(), ".start 600".to_string()];
    let mut symbols = SymbolTable::new();
    let r = process_start(&lines, &mut symbols);
    assert_eq!(r, Err((1, "Start location must not exceed 511".to_string())));
    assert_eq!(symbols.start, 100);
}

#[test]
fn bad_variable_value_is_an_error_on_its_line() {
    let lines = vec!["a = 1".to_string(), "b = zz".to_string()];
    let mut symbols = SymbolTable::new();
    let r = process_variables(&lines, &mut symbols);
    assert_eq!(r, Err((1, "Could not parse variable value".to_string())));
    assert_eq!(symbols.lookup_variable(&chars("a")), Some((0, 1)));
}

#[test]
fn bad_pad_amount_is_an_error() {
    let lines = vec![".pad abc".to_string()];
    let mut symbols = SymbolTable::new();
    assert_eq!(load_labels(&lines, &mut symbols), Err("Could not parse variable value".to_string()));
}

#[test]
fn encodes_and_decodes_two_registers() {
    let symbols = SymbolTable::new();
    let ins = Token::Ident("add".to_string());
    let r = encode_instruction(&ins, Some(&Token::Register(1)), Some(&Token::Register(2)), 1, &symbols);
    let words = r.unwrap().unwrap();
    assert_eq!(words, vec![4610]);
    assert!(decode(words[0]) == Instruction::ADD(Argument::Register(1), Argument::Register(2)));
}

#[test]
fn encodes_and_decodes_a_literal() {
    let symbols = SymbolTable::new();
    let ins = Token::Ident("MOV".to_string());
    let words = encode_instruction(&ins, Some(&Token::Register(0)), Some(&Token::Literal(5)), 1, &symbols)
        .unwrap()
        .unwrap();
    assert_eq!(words, vec![-7931]);
    assert!(decode(words[0]) == Instruction::MOV(Argument::Register(0), Argument::Literal(5)));
    let words = encode_instruction(&ins, Some(&Token::Register(0)), Some(&Token::Literal(131)), 1, &symbols)
        .unwrap()
        .unwrap();
    assert!(decode(words[0]) == Instruction::MOV(Argument::Register(0), Argument::Literal(-3)));
}

#[test]
fn encodes_a_jump_to_a_label() {
    let symbols = symbols_of(&program());
    let ins = Token::Ident("jmp".to_string());
    let words = encode_instruction(&ins, Some(&Token::Ident("main".to_string())), None, 1, &symbols)
        .unwrap()
        .unwrap();
    assert_eq!(words, vec![((16i32 << 11) | 200) as i16]);
    assert!(decode(words[0]) == Instruction::JMP(Argument::MemAddr(200)));
}

#[test]
fn assembled_one_operand_instructions_decode() {
    let symbols = SymbolTable::new();
    let cases = [
        ("push", Token::Register(3), Instruction::PUSH(Argument::Register(3))),
        ("push", Token::Literal(5), Instruction::PUSH(Argument::Literal(5))),
        ("push", Token::RegPointer(2), Instruction::PUSH(Argument::RegPtr(2))),
        ("push", Token::MemPointer(40), Instruction::PUSH(Argument::MemPtr(40))),
        ("int", Token::Literal(4), Instruction::INT(Argument::Literal(4))),
        ("int", Token::Literal(131), Instruction::INT(Argument::Literal(-3))),
        ("pop", Token::Register(2), Instruction::POP(Argument::Register(2))),
    ];
    for (name, operand, expected) in cases {
        let ins = Token::Ident(name.to_string());
        let words = encode_instruction(&ins, Some(&operand), None, 1, &symbols).unwrap().unwrap();
        assert_eq!(words.len(), 1);
        assert!(decode(words[0]) == expected);
    }
}

#[test]
fn assembled_loads_and_stores_decode() {
    let symbols = SymbolTable::new();
    let ld = encode_instruction(&Token::Ident("ld".to_string()), Some(&Token::Register(1)), Some(&Token::MemAddr(200)), 1, &symbols).unwrap().unwrap();
    assert!(decode(ld[0]) == Instruction::LD(Argument::Register(1), Argument::MemAddr(200)));
    let lea = encode_instruction(&Token::Ident("lea".to_string()), Some(&Token::Register(7)), Some(&Token::MemAddr(511)), 1, &symbols).unwrap().unwrap();
    assert!(decode(lea[0]) == Instruction::LEA(Argument::Register(7), Argument::MemAddr(511)));
    let st = encode_instruction(&Token::Ident("st".to_string()), Some(&Token::MemAddr(255)), Some(&Token::Register(3)), 1, &symbols).unwrap().unwrap();
    assert!(decode(st[0]) == Instruction::ST(Argument::MemAddr(255), Argument::Register(3)));
}

#[test]
fn assembled_branches_decode_to_their_targets() {
    let symbols = SymbolTable::new();
    let cases = [
        ("bz", 1000i16, Instruction::BZ(Argument::MemAddr(1000))),
        ("bnz", 5, Instruction::BNZ(Argument::MemAddr(5))),
        ("bo", 77, Instruction::BO(Argument::MemAddr(77))),
        ("bno", 513, Instruction::BNO(Argument::MemAddr(513))),
        ("bl", 1, Instruction::BL(Argument::MemAddr(1))),
        ("bg", 0, Instruction::BG(Argument::MemAddr(0))),
        ("j", 1023, Instruction::JMP(Argument::MemAddr(1023))),
    ];
    for (name, target, expected) in cases {
        let ins = Token::Ident(name.to_string());
        let words = encode_instruction(&ins, Some(&Token::MemAddr(target)), None, 1, &symbols).unwrap().unwrap();
        assert_eq!(words.len(), 1);
        assert!(decode(words[0]) == expected);
    }
    let words = encode_instruction(&Token::Ident("bl".to_string()), Some(&Token::MemAddr(0)), None, 1, &symbols).unwrap().unwrap();
    assert!(decode(words[0]) == Instruction::RET);
}

#[test]
fn encodes_data_directives() {
    let symbols = symbols_of(&program());
    let r = encode_instruction(&Token::Directive("asciiz".to_string()), Some(&Token::Asciiz("hi".to_string())), None, 1, &symbols);
    assert_eq!(r.unwrap(), Some(vec![104, 105]));
    let r = encode_instruction(&Token::Directive("word".to_string()), Some(&Token::Ident("x".to_string())), None, 1, &symbols);
    assert_eq!(r.unwrap(), Some(vec![5]));
    let r = encode_instruction(&Token::Directive("pad".to_string()), Some(&Token::Literal(3)), None, 1, &symbols);
    assert_eq!(r.unwrap(), Some(vec![0, 0, 0]));
    let r = encode_instruction(&Token::Directive("start".to_string()), Some(&Token::MemAddr(200)), None, 1, &symbols);
    assert_eq!(r.unwrap(), None);
}

#[test]
fn unknown_instruction_suggests_close_mnemonics() {
    let symbols = SymbolTable::new();
    let r = encode_instruction(&Token::Ident("foo".to_string()), Some(&Token::Register(1)), None, 4, &symbols);
    let e = r.unwrap_err();
    assert_eq!(e.0, 4);
    assert_eq!(e.1, None);
    assert_eq!(e.2 .0, "instruction \"foo\" not recognized");
    assert_eq!(e.2 .1, "maybe you meant: BO, POP, MOV, BNO");
}

#[test]
fn undeclared_name_suggests_close_labels() {
    let lines = vec!["label:".to_string(), "hlt".to_string()];
    let symbols = symbols_of(&lines);
    let r = encode_instruction(&Token::Ident("jmp".to_string()), Some(&Token::Ident("lable".to_string())), None, 2, &symbols);
    let e = r.unwrap_err();
    assert_eq!(e.0, 2);
    assert_eq!(e.1, Some(vec![1]));
    assert_eq!(e.2 .0, "label/variable \"lable\" not declared");
    assert_eq!(e.2 .1, "similar labels exist: label:1");
}

#[test]
fn invalid_register_is_an_error() {
    let symbols = SymbolTable::new();
    let r = encode_instruction(&Token::Ident("add".to_string()), Some(&Token::Register(12)), Some(&Token::Register(1)), 3, &symbols);
    let e = r.unwrap_err();
    assert_eq!(e.2 .0, "invalid register number 12");
    assert_eq!(e.2 .1, "valid registers are r0-r9");
}

#[test]
fn checks_operands() {
    let symbols = SymbolTable::new();
    let hlt = Token::Ident("hlt".to_string());
    assert_eq!(verify(&hlt, Some(&Token::Register(1)), None, 3, &symbols), Err((3, "HLT requires no arguments".to_string())));
    let mov = Token::Ident("mov".to_string());
    assert_eq!(verify(&mov, Some(&Token::Register(1)), Some(&Token::Literal(600)), 3, &symbols), Err((3, "literal value too large".to_string())));
    assert_eq!(verify(&mov, Some(&Token::Register(1)), Some(&Token::Literal(6)), 3, &symbols), Ok(()));
    let int = Token::Ident("int".to_string());
    assert_eq!(verify(&int, Some(&Token::Literal(3000)), None, 3, &symbols), Err((3, "invalid interrupt number".to_string())));
}

#[test]
fn assembles_lines() {
    let symbols = symbols_of(&program());
    let tokens = lex("add r1, r2", &symbols).unwrap();
    match assemble_line(&tokens, 4, &symbols) {
        LineResult::Words(w) => assert_eq!(w, vec![4610]),
        _ => panic!("expected words"),
    }
    let tokens = lex("x = 5", &symbols).unwrap();
    assert!(matches!(assemble_line(&tokens, 2, &symbols), LineResult::Skip));
    let tokens = lex("hlt r1", &symbols).unwrap();
    assert!(matches!(assemble_line(&tokens, 2, &symbols), LineResult::CheckError(_)));
    assert!(mentions_hlt(&lex("HlT", &symbols).unwrap()));
    let tokens = lex("st r1, r2", &symbols).unwrap();
    let (i, a, b) = operands(&tokens);
    assert!(i == Some(&Token::Ident("st".to_string())));
    assert!(a == Some(&Token::Register(1)));
    assert!(b == Some(&Token::Register(2)));
}

#[test]
fn image_has_header_and_big_endian_words() {
    assert_eq!(rom_image(200, &[4610]), vec![1, 2, 2, 200, 0x12, 0x02]);
}

#[test]
fn label_and_variable_may_not_share_a_name() {
    let lines = vec!["x = 1".to_string(), "x:".to_string()];
    let symbols = symbols_of(&lines);
    assert_eq!(shared_name(&symbols), Some("x".to_string()));
    let symbols = symbols_of(&program());
    assert_eq!(shared_name(&symbols), None);
}

#[test]
fn edit_distance() {
    assert_eq!(levenshtein_distance(&chars("kitten"), &chars("sitting")), 3);
    assert_eq!(levenshtein_distance(&chars(""), &chars("abc")), 3);
    assert_eq!(levenshtein_distance(&chars("same"), &chars("same")), 0);
}

#[test]
fn token_text_and_numbers() {
    let symbols = symbols_of(&program());
    assert_eq!(Token::Register(-5).get_raw(), "-5");
    assert_eq!(Token::Comma.get_raw(), "comma");
    assert_eq!(Token::Ident("x".to_string()).get_num(&symbols), 5);
    assert_eq!(Token::Ident("main".to_string()).get_num(&symbols), 200);
    assert_eq!(Token::Ident("nothing".to_string()).get_num(&symbols), 0);
    assert_eq!(Token::EqualSign.get_num(&symbols), -1);
    assert!(Token::Ident("a".to_string()).is_literal());
    assert!(!Token::Comma.is_valid_arg());
}

#[test]
fn output_defaults_to_a_out() {
    let a = declare_config(Args { output: None, source: "p.asm".to_string(), verbose: false, thin: false });
    assert_eq!(a.output, Some("a.out".to_string()));
    let a = declare_config(Args { output: Some("x".to_string()), source: "p.asm".to_string(), verbose: true, thin: false });
    assert_eq!(a.output, Some("x".to_string()));
    assert!(a.verbose);
}

#[test]
fn error_tips_and_messages() {
    let e = Error::InvalidSyntax("m".to_string(), 1, None, Some("tip".to_string()));
    assert_eq!(e.get_tip(), "tip");
    assert_eq!(e.message(), "");
    let e = Error::LineLessError("no input files");
    assert_eq!(e.message(), "no input files");
}

#[test]
fn mnemonics_are_read_in_uppercase() {
    let symbols = SymbolTable::new();
    // a dotless i uppercases to an ASCII I
    let words = encode_instruction(&Token::Ident("\u{131}nt".to_string()), Some(&Token::Literal(4)), None, 1, &symbols)
        .unwrap()
        .unwrap();
    assert!(decode(words[0]) == Instruction::INT(Argument::Literal(4)));
    let r = select_mnemonic_of(&"x".to_string(), &['P', 'U', 'S', 'H'], Some(&Token::Register(1)), None);
    assert!(matches!(r, Ok((12, Form::OneArg))));
    assert!(check_instruction(&['H', 'L', 'T'], Some(&Token::Register(1)), None, 3, &symbols).is_err());
    assert!(check_instruction(&['H', 'L', 'T'], None, None, 3, &symbols).is_ok());
}

#[test]
fn letters_and_digits_of_any_script_are_alphanumeric() {
    assert!(is_alphanumeric('\u{e9}'));
    assert!(is_alphanumeric('7'));
    assert!(is_alphanumeric('Z'));
    assert!(!is_alphanumeric('-'));
    assert!(!is_alphanumeric(' '));
}

#[test]
fn written_images_read_back() {
    let image = rom_image(100, &[4610, -3, 0]);
    let words = words_from_bytes(&image);
    assert_eq!(words, vec![0x0102, 0x200 | 100, 4610, -3, 0]);
    assert_eq!(rom_version(&words), RomVersion::Current);
    let image = rom_image(511, &[]);
    assert_eq!(words_from_bytes(&image), vec![0x0102, 1023]);
}

#[test]
fn mnemonics_match_in_any_case() {
    let symbols = SymbolTable::new();
    let mut words = Vec::new();
    for name in ["add", "Add", "ADD"] {
        let r = encode_instruction(&Token::Ident(name.to_string()), Some(&Token::Register(1)), Some(&Token::Register(2)), 1, &symbols);
        words.push(r.unwrap().unwrap());
    }
    assert_eq!(words[0], words[1]);
    assert_eq!(words[1], words[2]);
    assert!(encode_instruction(&Token::Ident("adx".to_string()), None, None, 1, &symbols).is_err());
    assert!(encode_instruction(&Token::Ident("ADX".to_string()), None, None, 1, &symbols).is_err());
}

#[test]
fn error_reports_lay_out_the_line() {
    let lines = vec!["mov r1, 2".to_string(), "   add r1, @ ; c".to_string()];
    let e = Error::UnknownCharacter("@".to_string(), 2, Some(5), Some("remove it".to_string()));
    assert!(can_report(&e, &lines));
    let r = error_report(&e, "prog.asm", &lines);
    assert_eq!(r.message, "unknown character: @");
    assert_eq!(r.source, "prog.asm");
    assert_eq!(r.line, Some((2, "add r1, @ ".to_string(), "; c".to_string())));
    assert_eq!(r.column, Some(7));
    assert_eq!(r.highlight, Some(3));
    assert_eq!(r.caret_indent, Some(11));
    assert_eq!(r.tip, "remove it");
    let far = Error::OtherError("too far", 1, Some(40), None);
    let r = error_report(&far, "prog.asm", &lines);
    assert_eq!(r.line, Some((1, "mov r1, 2".to_string(), String::new())));
    assert_eq!(r.column, None);
    assert_eq!(r.caret_indent, Some(46));
    let r = error_report(&Error::LineLessError("no input files"), "prog.asm", &lines);
    assert_eq!(r.message, "no input files");
    assert_eq!(r.line, None);
    assert_eq!(r.caret_indent, None);
    assert!(!can_report(&Error::OtherError("x", 1, Some(1), None), &lines));
    let quoted = vec!["\"\u{e9}\" ; x".to_string()];
    let q = Error::OtherError("q", 1, Some(2), None);
    let r = error_report(&q, "prog.asm", &quoted);
    assert_eq!(r.line, Some((1, "\"\u{e9}\"".to_string(), " ; x".to_string())));
    assert_eq!(split_code_comment("  mov r1, 2 ; hi "), ("mov r1, 2".to_string(), "; hi".to_string()));
    assert_eq!(split_code_comment(".asciiz \"a;b\" ; c"), (".asciiz \"a;b\"".to_string(), "; c".to_string()));
    assert_eq!(split_code_comment("hlt"), ("hlt".to_string(), String::new()));
}

#[test]
fn assembler_driver_decisions() {
    assert!(defines_variable("  x = 5 ; value"));
    assert!(!defines_variable("mov r1, 2 ; a = b"));
    assert!(warns_no_hlt(false, 0));
    assert!(!warns_no_hlt(true, 0));
    assert!(!warns_no_hlt(false, 2));
    assert_eq!(errors_generated(1), "error generated");
    assert_eq!(errors_generated(3), "errors generated");
}
