//! Instructions: a builtin, or a program with its arguments.
use vstd::prelude::*;

verus! {

/// An instruction for the shell.
#[derive(Debug)]
pub enum Instruction {
    Builtin(BuiltinInstruction),
    Extern(Vec<String>),
}

/// The builtin instructions.
#[allow(non_camel_case_types)]
#[derive(Debug)]
pub enum BuiltinInstruction {
    exit,
    pwd,
    cd(Option<String>),
}

} // verus!
