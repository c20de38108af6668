pub mod arith;
pub mod asm_config;
pub mod assembler;
pub mod checks;
pub mod codegen;
pub mod control;
pub mod cpu;
pub mod debugger;
pub mod diagnostics;
pub mod emu_config;
pub mod encode;
pub mod execute;
pub mod history;
pub mod isa;
pub mod laws;
pub mod lexer;
pub mod lexing;
pub mod machine;
pub mod misc;
pub mod numbers;
pub mod rom;
pub mod semantics;
pub mod suggest;
pub mod symbol_table;
pub mod symbols;
pub mod text;
pub mod tokens;
