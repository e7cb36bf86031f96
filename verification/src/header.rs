//! The data shared by every stage: opcodes, functions and errors.

use crate::types::Shape;
use vstd::prelude::*;

verus! {

/// A program image as it arrives: the reserved header, then encoded opcodes.
pub type ByteStream = Vec<u8>;

/// The functions of a program, in the order in which the stream defines them.
pub type ParsedStmts = Vec<UnverifiedStmt>;

/// One instruction, with its inline operand where the encoding has one.
///
/// `SomeOp`, `ForallOp` and `RgnPolyOp` each open a quantifier scope, which
/// the opcode that spells the opener backwards closes. `AllOp` opens a scope
/// too, but no opcode is known to close it.
#[derive(Clone, Copy, Debug, PartialEq, Eq, Structural)]
pub enum UnverifiedOpcode {
    ReqOp,
    RegionOp,
    HeapOp,
    CapOp,
    CapLEOp,
    UniqueOp,
    RWOp,
    BothOp,
    HandleOp,
    I32Op,
    EndFunctionOp,
    MutOp,
    /// A tuple type of the given arity.
    TupleOp(u8),
    ArrOp,
    AllOp,
    SomeOp,
    EmosOp,
    /// A function type with the given number of parameters.
    FuncOp(u8),
    /// Copies the constructor-stack entry that many slots below the top.
    CTGetOp(u8),
    CTPopOp,
    UnpackOp,
    /// Copies the value that many slots below the top of the value stack.
    GetOp(u8),
    /// Initialises the field with the given index.
    InitOp(u8),
    MallocOp,
    /// Projects the field with the given index.
    ProjOp(u8),
    CallOp,
    PrintOp,
    /// Pushes a 32-bit integer literal.
    LitOp(i32),
    /// Pushes a reference to the global function with the given index.
    GlobalFuncOp(u32),
    /// Stops the machine with the given status code.
    HaltOp(u8),
    PackOp,
    Word32Op,
    Word64Op,
    PtrOp,
    ReprsOp(u8),
    NewRgnOp,
    FreeRgnOp,
    ForallOp,
    LlarofOp,
    RgnPolyOp,
    YlopNgrOp,
}

/// Why a function does not verify.
#[derive(Clone, Copy, Debug, PartialEq, Eq, Structural)]
pub enum VerifyErrorKind {
    /// A stack holds fewer entries than the opcode takes.
    StackUnderflow,
    /// An entry has another shape than the opcode takes: the shape that was
    /// expected, then the shape that was found.
    TypeMismatch(Shape, Shape),
    /// The capability has been used up, or was never held.
    CapabilityLinearity,
    /// An opcode takes or copies what names a region that has been freed.
    RegionEscape,
    /// A count is off: a field index beyond the tuple, fewer arguments than
    /// the callee takes, or values left over at the end of a function.
    ArityMismatch,
    /// No function has the index.
    UnknownReference,
    /// A closing opcode does not meet the scope that its opener would have
    /// opened.
    ScopeMismatch,
    /// The opcode has no typing rule.
    NoRule,
}

/// Why a byte stream is not a program that may run.
#[derive(Clone, Copy, Debug, PartialEq, Eq, Structural)]
pub enum Error {
    /// The stream ends before the operand of the opcode is complete. Carries
    /// the position of the opcode's tag byte in the stream, and the tag byte.
    SyntaxErrorParamNeeded(u32, u8),
    /// The byte is not the tag of any opcode. Carries the position of the
    /// byte in the stream, and the byte.
    SyntaxErrorUnknownOp(u32, u8),
    /// A function does not verify. Carries the label of the function, the
    /// offset of the offending opcode among the opcodes of the function, and
    /// the reason.
    VerificationError(u32, usize, VerifyErrorKind),
}

/// A function before verification: its label and its opcodes. The label is
/// the index, among all opcodes of the program, at which the function begins.
#[derive(Debug, PartialEq, Eq)]
pub enum UnverifiedStmt {
    Func(u32, Vec<UnverifiedOpcode>),
}

impl Clone for UnverifiedStmt {
    fn clone(&self) -> (res: Self)
        ensures
            res@ == self@,
    {
        match self {
            UnverifiedStmt::Func(label, ops) => UnverifiedStmt::Func(*label, ops.clone()),
        }
    }
}

/// What a function is to a specification: its label and its body.
pub struct FuncView {
    pub label: u32,
    pub body: Seq<UnverifiedOpcode>,
}

impl View for UnverifiedStmt {
    type V = FuncView;

    open spec fn view(&self) -> FuncView {
        match *self {
            UnverifiedStmt::Func(label, ops) => FuncView { label, body: ops@ },
        }
    }
}

/// The functions of a program as a sequence of labelled bodies.
pub open spec fn stmts_view(stmts: Seq<UnverifiedStmt>) -> Seq<FuncView> {
    stmts.map_values(|f: UnverifiedStmt| f@)
}

impl UnverifiedStmt {
    /// The label of the function.
    pub fn label(&self) -> (l: u32)
        ensures
            l == self@.label,
    {
        match self {
            UnverifiedStmt::Func(label, _) => *label,
        }
    }

    /// The opcodes of the function, in order.
    pub fn opcodes(&self) -> (ops: &Vec<UnverifiedOpcode>)
        ensures
            ops@ == self@.body,
    {
        match self {
            UnverifiedStmt::Func(_, ops) => ops,
        }
    }
}

} // verus!
