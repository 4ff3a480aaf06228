//! A 65C02 processor emulator together with the scripting layer that drives
//! it: memory, registers, addressing modes, the instruction set, and the
//! test-script commands that set up, run and check programs.

pub mod addressing_mode;
pub mod apple_single;
pub mod arguments;
pub mod atari_binary;
pub mod command_executor;
pub mod commands;
pub mod config;
pub mod cpu_instruction;
pub mod disassembler;
pub mod environment;
pub mod displayer;
pub mod error;
pub mod grammar;
pub mod executor;
pub mod lexer;
pub mod memory;
pub mod microcode;
pub mod opcodes;
pub mod parser;
pub mod processing_unit;
pub mod registers;
pub mod semantics;
pub mod symbols;
pub mod text;
pub mod until_condition;

pub use addressing_mode::{resolve_relative, AddressingMode, AddressingModeResolution, ResolutionError};
pub use cpu_instruction::{CPUInstruction, LogLine, Microcode, MicrocodeError, INIT_VECTOR_ADDR, INTERRUPT_VECTOR_ADDR};
pub use memory::{little_endian, AddressableIO, Memory, MemoryError, MemoryStack, MEMMAX, RAM, ROM};
pub use processing_unit::{disassemble, execute_step, read_step, resolve_opcode, CPUError, MemoryParserIterator};
pub use registers::{Registers, STACK_BASE_ADDR};
pub use apple_single::{ASEntry, AppleSingle};
pub use arguments::CommandLineArguments;
pub use atari_binary::{AtariBinary, Section};
pub use commands::{
    AssertCommand, CliCommand, Command, ControllableFunction, LoadTarget, MemoryCommand, MemorySegment, OutputToken,
    RegisterCommand, RunAddress, RunCommand,
};
pub use config::{config_load_order, tester_arguments, CompilerType, Config, ConfigFile};
pub use disassembler::Disassembler;
pub use environment::{expand_env_vars, replace_env_vars, substitute_placeholders};
pub use displayer::{CliDisplayer, Displayer};
pub use error::{AppError, AppResult};
pub use executor::{CommandIterator, Executor, ExecutorConfiguration};
pub use parser::{
    AssertCommandParser, CliCommandParser, MemoryCommandParser, ParserContext, RegisterCommandParser, RunCommandParser,
};
pub use symbols::SymbolTable;
pub use until_condition::{Assignment, BooleanExpression, RegisterSource, Source};
