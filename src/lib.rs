//! A code generator from the instructions of a stack-based virtual machine
//! to the assembly of a 16-bit machine with registers A and D, with a model
//! of that machine against which the generated code is proved.
pub mod text;
pub mod token;
pub mod command;
pub mod lexer;
pub mod parser;
pub mod hack;
pub mod machine;
pub mod segment;
pub mod assembly_builder;
pub mod translator;
pub mod laws;
