//! The register machine: register file, addresses and argument memory.

pub mod address;
pub mod argument;
pub mod memory;
pub mod register_file;
pub mod registers;
pub mod argument_memory;
pub mod token;
pub mod lexer;
pub mod compiler;
pub mod decoder;
pub mod executor;
pub mod messages;
