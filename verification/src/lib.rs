//! A compiler from parsing-expression-grammar descriptions to backtracking
//! matcher source in a Rust-like target language, together with a verified
//! reference semantics for the matchers it emits and an executable matcher
//! proved to follow that semantics.

pub mod ast;
pub mod codegen;
pub mod laws;
pub mod matcher;
pub mod semantics;
pub mod writer;
