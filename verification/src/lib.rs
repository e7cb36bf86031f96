//! A virtual machine for a stack-based bytecode with regions and
//! capabilities.
//!
//! A program image is a flat byte sequence: a reserved four-byte header
//! followed by one-byte opcode tags, some of which carry an inline operand.
//! `parse` turns the bytes into opcodes and divides the opcodes into
//! labelled functions. `verify` checks every function once, before anything
//! runs: each opcode must find on the stacks what it takes, and no region
//! may be touched without a capability that is still held. `vm` runs a
//! program that has been verified; `sound` proves that such a program cannot
//! make the machine give up, and `linear` that a capability that has been
//! used up stays used up.

pub mod header;
pub mod linear;
pub mod parse;
pub mod sound;
pub mod types;
pub mod verify;
pub mod vm;

use crate::header::ByteStream;
use crate::header::Error;
use crate::parse::lex_spec;
use crate::parse::parse_spec;
use crate::types::FuncType;
use crate::verify::ProgramView;
use crate::verify::VerifiedFuncView;
use crate::verify::verify_spec;
use crate::vm::Outcome;
use crate::vm::run_spec;
use crate::vm::start_view;
use vstd::prelude::*;

verus! {

/// Takes a program image all the way: lexes and parses it, verifies the
/// functions against their declared types, and runs the program.
///
/// `types` holds the declared type of each function, by its index. The run
/// takes at most `max_steps` steps on a call stack of at most `max_depth`
/// frames. A lexing error or a verification error is handed on as it is,
/// and then nothing runs. A run never ends in a fault.
pub fn go(bytes: &ByteStream, types: Vec<FuncType>, max_depth: usize, max_steps: usize) -> (res:
    Result<Outcome, Error>)
    requires
        bytes@.len() <= u32::MAX,
    ensures
        match res {
            Ok(out) => {
                &&& lex_spec(bytes@) matches Ok(tokens)
                &&& verify_spec(types@, parse_spec(tokens)) matches Ok(functions)
                &&& (out.status, out.output@) == run_spec(
                    ProgramView { table: types@, functions },
                    start_view(functions.len(), max_depth),
                    max_steps as nat,
                    Seq::empty(),
                )
                &&& !(out.status is Fault)
            },
            Err(e) => match lex_spec(bytes@) {
                Err(lexing) => e == lexing,
                Ok(tokens) => verify_spec(types@, parse_spec(tokens)) == Err::<
                    Seq<VerifiedFuncView>,
                    _,
                >(e),
            },
        },
{
    let stmts = match crate::parse::go(bytes) {
        Err(e) => {
            return Err(e);
        },
        Ok(stmts) => stmts,
    };
    let program = match crate::verify::go(types, stmts) {
        Err(e) => {
            return Err(e);
        },
        Ok(program) => program,
    };
    assert(program@ == ProgramView { table: types@, functions: program@.functions });
    Ok(crate::vm::go(program, max_depth, max_steps))
}

} // verus!
