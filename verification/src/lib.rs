//! A small compiler from a one-function subset of C to x86-64 assembly.
//!
//! The language is a single function, `int main(void) { return <expr>; }`,
//! whose expression is built from 32-bit integer constants, parentheses, the
//! unary operators `~` and `-`, and the binary operators `+ - * / %`.
//!
//! The compiler is a pipeline, and each stage is a module:
//! - [`lexer`]: source text to tokens;
//! - [`parser`]: tokens to the syntax tree;
//! - [`llvm_ir_generator`]: the tree to a linear form over numbered registers;
//! - [`x86_64_generator`]: the linear form to assembly, in three passes;
//! - [`driver`]: the stages in sequence, and the command line.
//!
//! [`generator`] is a shorter path for programs that return a constant.
//! [`semantics`] says what expressions and instructions mean and proves that
//! the assembly of a program returns the value of its expression.
//! [`text`] holds the numerals that the stages share.
//!
//! Every stage is specified by spec functions over mathematical models of
//! its data, and the executable functions are proved to compute them.

pub mod driver;
pub mod generator;
pub mod lexer;
pub mod llvm_ir_generator;
pub mod parser;
pub mod semantics;
pub mod text;
pub mod x86_64_generator;
