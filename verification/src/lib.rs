//! Tools for the raion toolchain: the register machine, its flat assembler,
//! and the rin/rasm front end (lexers, parsers and the section compiler).

pub mod chars;
pub mod constants;
pub mod error;
pub mod hash;
pub mod location;
pub mod sin;
pub mod text;
pub mod vm;
pub mod token;
pub mod lexer;
pub mod compiler;
pub mod manager;
