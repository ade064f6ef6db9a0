//! A literate-programming playground: this library extracts the fenced code
//! blocks of one host language from a structured document, resolves a
//! user-supplied selector token (an ordinal or a line reference) to one of
//! them, and assembles a complete compilable source text from the selection,
//! inlining earlier library-tagged blocks where the rules call for it. It
//! also fixes the plan an embedding program follows to compile and run the
//! assembled text, and the state machine of the interactive command loop.
//!
//! Everything that decides or computes lives here with a contract; reading
//! the document file, spawning the compiler and running the output binary
//! are left to the embedding program.

pub mod assembler;
pub mod block;
pub mod engine;
pub mod errors;
pub mod loader;
pub mod pipeline;
pub mod selector;
pub mod shell;
pub mod text;
