use belle::control::parse_input_number;
use belle::cpu::CPU;
use belle::debugger::{parse_clock, parse_command, parse_number, command_of, Command, PcError, BDB};
use belle::history::StateHistory;
use belle::emu_config::declare_config;
use belle::misc::{cli_argument_check, length_without_ansi, trim_and_format_line};
use belle::rom::{rom_metadata, rom_version, words_from_bytes, words_to_bytes, EmuError, RomVersion};

#[test]
fn formats_source_lines() {
    assert_eq!(trim_and_format_line("   add r1, r2", 4, false), "    add r1, r2");
    assert_eq!(trim_and_format_line("        add r1, r2", 2, true), "\tadd r1, r2");
    assert_eq!(trim_and_format_line("  main:", 4, false), "  main:");
    assert_eq!(trim_and_format_line("  .word 3", 4, false), "  .word 3");
    assert_eq!(trim_and_format_line("; note", 4, false), "; note");
    assert_eq!(trim_and_format_line("   ", 4, false), "");
}

#[test]
fn measures_text_without_escapes() {
    assert_eq!(length_without_ansi("\x1B[31mred\x1B[0m"), 3);
    assert_eq!(length_without_ansi("héllo"), 6);
    assert_eq!(length_without_ansi(""), 0);
}

#[test]
fn emulator_configuration_without_command_line() {
    let c = declare_config(None);
    assert_eq!(c.rom, "");
    assert!(c.no_display);
    assert!(!c.debug && !c.verbose && !c.pretty);
    assert_eq!(c.time_delay, None);
}

#[test]
fn command_line_checks() {
    let mut c = declare_config(None);
    assert!(matches!(cli_argument_check(&c, false, false), Err((0, None))));
    c.rom = "prog.bin".to_string();
    assert!(matches!(cli_argument_check(&c, false, false), Err((1, Some(EmuError::FileNotFound())))));
    assert!(matches!(cli_argument_check(&c, true, true), Err((1, Some(EmuError::IsDirectory())))));
    assert!(cli_argument_check(&c, false, true).is_ok());
    c.debug = true;
    c.verbose = true;
    match cli_argument_check(&c, false, true) {
        Err((1, Some(EmuError::Impossible(m)))) => assert_eq!(m, "Cannot have both debug and verbose flags"),
        _ => panic!("debug and verbose together must be refused"),
    }
}

#[test]
fn words_and_bytes_round_trip() {
    let words = vec![0x0102i16, -2, 300, 0];
    let bytes = words_to_bytes(&words);
    assert_eq!(bytes, vec![1, 2, 0xff, 0xfe, 1, 44, 0, 0]);
    assert_eq!(words_from_bytes(&bytes), words);
    assert_eq!(words_from_bytes(&[1, 2, 3]), vec![0x0102]);
}

#[test]
fn rom_version_check() {
    assert!(rom_version(&[0x0102]) == RomVersion::Current);
    assert!(rom_version(&[0x0103]) == RomVersion::Mismatch);
    assert!(rom_version(&[0x0502]) == RomVersion::Missing);
    assert!(rom_version(&[]) == RomVersion::Empty);
}

#[test]
fn loads_a_rom() {
    let mut cpu = CPU::new();
    let binary = vec![0x0102i16, 300, 4, 0x4142, 0x4344, 0x1202, 0];
    assert!(cpu.load_rom(&binary).is_ok());
    assert_eq!(cpu.starts_at, 300);
    assert_eq!(cpu.pc, 300);
    assert_eq!(cpu.memory[300], Some(0x1202));
    assert_eq!(cpu.memory[301], Some(0));
    assert_eq!(cpu.memory[302], None);
    assert_eq!(rom_metadata(&binary), vec![0x41, 0x42, 0x43, 0x44]);
}

#[test]
fn rom_past_the_end_of_memory_overflows() {
    let mut cpu = CPU::new();
    let binary = vec![0x0102i16, -1, 0, 7, 8];
    assert!(matches!(cpu.load_rom(&binary), Err(EmuError::MemoryOverflow())));
    assert_eq!(cpu.memory[65535], Some(7));
    assert_eq!(cpu.pc, 0);
}

#[test]
fn debugger_commands() {
    assert_eq!(parse_command("b 1f"), ("b".to_string(), "1f".to_string()));
    assert_eq!(parse_command("run"), ("run".to_string(), "".to_string()));
    let w: Vec<char> = "spc".chars().collect();
    assert!(command_of(&w) == Command::SetPc);
    let w: Vec<char> = "zz".chars().collect();
    assert!(command_of(&w) == Command::Unknown);
}

#[test]
fn debugger_breakpoints_and_program_counter() {
    let mut bdb = BDB::new("prog");
    assert!(bdb.dbgcpu.debugging);
    assert_eq!(bdb.handle_set_breakpoint(" 1f "), Some(31));
    assert_eq!(bdb.handle_set_breakpoint("zz"), None);
    assert_eq!(bdb.breakpoints, vec![31]);
    assert!(!bdb.at_breakpoint());
    bdb.dbgcpu.pc = 31;
    assert!(bdb.at_breakpoint());
    assert_eq!(bdb.handle_remove_breakpoint("1f"), Some(31));
    assert!(bdb.breakpoints.is_empty());
    assert!(bdb.handle_set_pc("5") == Err(PcError::EmptyMemory));
    bdb.dbgcpu.memory[7] = Some(1);
    assert!(bdb.handle_set_pc("0x10") == Ok(16));
    assert_eq!(bdb.dbgcpu.pc, 16);
    assert!(bdb.handle_set_pc("x") == Err(PcError::NotANumber));
    assert_eq!(bdb.poke_value(9, "0b101"), Some(5));
    assert_eq!(bdb.dbgcpu.memory[9], Some(5));
    assert_eq!(bdb.poke_value(9, "5\n"), None);
    bdb.reset_cpu();
    assert!(bdb.memory_is_empty());
}

#[test]
fn removing_a_breakpoint_keeps_the_others() {
    let mut bdb = BDB::new("prog");
    bdb.handle_set_breakpoint("a");
    bdb.handle_set_breakpoint("b");
    bdb.handle_set_breakpoint("a");
    bdb.dbgcpu.pc = 10;
    assert!(bdb.at_breakpoint());
    assert_eq!(bdb.handle_remove_breakpoint("A"), Some(10));
    assert!(!bdb.at_breakpoint());
    assert_eq!(bdb.breakpoints, vec![11]);
    bdb.dbgcpu.pc = 11;
    assert!(bdb.at_breakpoint());
}

#[test]
fn debugger_numbers() {
    assert_eq!(parse_number("42"), Some(42));
    assert_eq!(parse_number("0x1F"), Some(31));
    assert_eq!(parse_number("0b101"), Some(5));
    assert_eq!(parse_number("+7"), Some(7));
    assert_eq!(parse_number("-1"), None);
    assert_eq!(parse_number(" 3"), None);
    assert_eq!(parse_number(""), None);
}

#[test]
fn error_details() {
    let e = belle::cpu::UnrecoverableError::DivideByZero(3, 7, None);
    let (ir, name, pc) = e.details();
    assert_eq!((ir, name.as_str(), pc), (3, "Divide by zero", 7));
    assert_eq!(e.only_err(), "UNRECOVERABLE ERROR: Divide by zero");
    let r = belle::cpu::RecoverableError::Overflow(4, None);
    assert_eq!(r.details(), ("Overflow".to_string(), 4));
}

#[test]
fn numbers_typed_for_the_machine() {
    assert_eq!(parse_input_number("42\n"), Some(42));
    assert_eq!(parse_input_number("  -7 \r\n"), Some(-7));
    assert_eq!(parse_input_number("32768\n"), None);
    assert_eq!(parse_input_number("0x10\n"), None);
    assert_eq!(parse_input_number("\n"), None);
}

#[test]
fn the_history_keeps_states_by_clock() {
    let mut history = StateHistory::new();
    let mut cpu = CPU::new();
    cpu.memory[5] = Some(7);
    cpu.pc = 3;
    history.record_state(1, &cpu);
    cpu.pc = 4;
    history.record_state(2, &cpu);
    cpu.pc = 9;
    history.record_state(1, &cpu);
    assert_eq!(history.states.len(), 2);
    let first = history.display_state(1).unwrap();
    assert_eq!(first.pc, 9);
    assert_eq!(first.memory, vec![(5, 7)]);
    assert_eq!(first.int_reg, cpu.int_reg);
    assert_eq!(history.display_state(2).unwrap().pc, 4);
    assert!(history.display_state(3).is_none());
    assert_eq!(parse_clock("12"), Some(12));
    assert_eq!(parse_clock("0x12"), None);
    assert_eq!(parse_clock("-1"), None);
    assert_eq!(command_of(&['i', 'n', 'f', 'o']), Command::Info);
}
