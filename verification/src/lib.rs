//! A compiler from syntax trees to bytecode for a stack machine.
//!
//! - `ast` is the syntax tree that the compiler consumes, `printing` shows
//!   it as text, and `token` holds the tokens that it carries.
//! - `opcode` is the instruction set and its encoding, `stream` says what a
//!   well-formed instruction stream is, and `disassembly` lists a stream as
//!   text.
//! - `object` holds the values of the constant pool.
//! - `lowering` states what the code and constants of a tree are, and
//!   `history` what the compiler remembers of the instructions it emitted.
//! - `compiler` produces them: it emits instructions, patches jump targets
//!   once they are known, and retracts a discard instruction where a block
//!   stands for a value.
//! - `coherence` proves that what it produces can be run: whole
//!   instructions, jumps to instruction boundaries, constant indices within
//!   the pool. `laws` holds further laws of compilation.
//! - `tree` is a second, open syntax tree of nodes behind traits, and `text`
//!   renders numbers.

pub mod ast;
pub mod coherence;
pub mod compiler;
pub mod disassembly;
pub mod error;
pub mod history;
pub mod laws;
pub mod lowering;
pub mod object;
pub mod opcode;
pub mod printing;
pub mod stream;
pub mod text;
pub mod token;
pub mod tree;
