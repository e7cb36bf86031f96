//! The verifier: an abstract interpreter that checks, one function at a
//! time, that every opcode finds on the stacks what it takes, and that no
//! region is touched without a capability that is still held.
//!
//! The verifier threads three things through the opcodes of a function. The
//! constructor stack holds the regions, capabilities and types that the
//! type-building opcodes have built, in postfix order. The runtime-type
//! stack holds the type of each value that the value stack will hold. The
//! environment tells, for each region that the function has created, what
//! has become of its capability: it is held, it has been used up, or the
//! region has been freed.
//!
//! A region is touched by an allocation, by the initialisation and the
//! projection of a field, and by freeing it; each needs the capability of
//! the region to be held. A capability with exclusive rights is used up by
//! the operation that takes it. Once a region has been freed, every entry
//! of either stack that names it is dead: it can still be dropped, but an
//! opcode that takes it or copies it is refused.
//!
//! A function starts with its arguments on the value stack and nothing
//! else. It ends by halting the machine or by returning to its caller; a
//! function that returns leaves the value stack empty.

use crate::header::Error;
use crate::header::FuncView;
use crate::header::ParsedStmts;
use crate::header::UnverifiedOpcode;
use crate::header::UnverifiedStmt;
use crate::header::VerifyErrorKind;
use crate::header::stmts_view;
use crate::types::CapState;
use crate::types::Capability;
use crate::types::Entry;
use crate::types::EntryList;
use crate::types::FieldList;
use crate::types::FuncType;
use crate::types::Quantifier;
use crate::types::Region;
use crate::types::Rights;
use crate::types::Shape;
use crate::types::StackType;
use crate::types::Type;
use crate::types::TypeList;
use crate::types::cap_shape;
use crate::types::cap_shape_of;
use vstd::prelude::*;

verus! {

/// An opcode of a verified function: what is left of it for the machine.
#[derive(Clone, Copy, Debug, PartialEq, Eq, Structural)]
pub enum VerifiedOpcode {
    /// An opcode that only works on the constructor stack and does nothing
    /// when the function runs.
    Static(UnverifiedOpcode),
    Lit(i32),
    GlobalFunc(u32),
    Get(u8),
    Init(u8),
    Proj(u8),
    Print,
    Halt(u8),
    Pack,
    Unpack,
    NewRgn,
    /// Allocates a tuple with `arity` fields in the local region `region`.
    Malloc { region: usize, arity: usize },
    /// Frees the local region `region`.
    FreeRgn { region: usize },
    /// Calls the function on top of the stack with the `argc` values below.
    Call { argc: usize },
}

impl VerifiedOpcode {
    /// The opcode as the function had it before verification.
    pub open spec fn erase(self) -> UnverifiedOpcode {
        match self {
            VerifiedOpcode::Static(op) => op,
            VerifiedOpcode::Lit(i) => UnverifiedOpcode::LitOp(i),
            VerifiedOpcode::GlobalFunc(i) => UnverifiedOpcode::GlobalFuncOp(i),
            VerifiedOpcode::Get(n) => UnverifiedOpcode::GetOp(n),
            VerifiedOpcode::Init(n) => UnverifiedOpcode::InitOp(n),
            VerifiedOpcode::Proj(n) => UnverifiedOpcode::ProjOp(n),
            VerifiedOpcode::Print => UnverifiedOpcode::PrintOp,
            VerifiedOpcode::Halt(c) => UnverifiedOpcode::HaltOp(c),
            VerifiedOpcode::Pack => UnverifiedOpcode::PackOp,
            VerifiedOpcode::Unpack => UnverifiedOpcode::UnpackOp,
            VerifiedOpcode::NewRgn => UnverifiedOpcode::NewRgnOp,
            VerifiedOpcode::Malloc { .. } => UnverifiedOpcode::MallocOp,
            VerifiedOpcode::FreeRgn { .. } => UnverifiedOpcode::FreeRgnOp,
            VerifiedOpcode::Call { .. } => UnverifiedOpcode::CallOp,
        }
    }
}

/// The state of the verifier between two opcodes of a function.
#[derive(Debug, PartialEq, Eq)]
pub struct State {
    /// The constructor stack: the regions, capabilities and types built so
    /// far, and the scopes that are open. The top is the last entry.
    pub cstack: Vec<Entry>,
    /// The runtime-type stack: the type of each value that the value stack
    /// will hold at this point. The top is the last entry.
    pub tstack: Vec<StackType>,
    /// For each region that the function has created, in order, what has
    /// become of its capability.
    pub env: Vec<CapState>,
}

/// A verifier state as a specification sees it.
pub struct StateView {
    pub cstack: Seq<Entry>,
    pub tstack: Seq<StackType>,
    pub env: Seq<CapState>,
}

impl View for State {
    type V = StateView;

    open spec fn view(&self) -> StateView {
        StateView { cstack: self.cstack@, tstack: self.tstack@, env: self.env@ }
    }
}

/// Takes a region off the constructor stack. An entry that names a region
/// that has been freed is refused, whatever it is.
pub open spec fn expect_region(cs: Seq<Entry>, env: Seq<CapState>) -> Result<
    (Seq<Entry>, Region),
    VerifyErrorKind,
> {
    if cs.len() == 0 {
        Err(VerifyErrorKind::StackUnderflow)
    } else if cs.last().names_freed(env) {
        Err(VerifyErrorKind::RegionEscape)
    } else {
        match cs.last() {
            Entry::Region(r) => Ok((cs.drop_last(), r)),
            e => Err(VerifyErrorKind::TypeMismatch(Shape::Region, e.shape())),
        }
    }
}

/// Takes a capability whose rights have at least the level `need` off the
/// constructor stack. An entry that names a region that has been freed is
/// refused, whatever it is.
pub open spec fn expect_cap(cs: Seq<Entry>, env: Seq<CapState>, need: nat) -> Result<
    (Seq<Entry>, Capability),
    VerifyErrorKind,
> {
    if cs.len() == 0 {
        Err(VerifyErrorKind::StackUnderflow)
    } else if cs.last().names_freed(env) {
        Err(VerifyErrorKind::RegionEscape)
    } else {
        match cs.last() {
            Entry::Cap(c) if c.rights.level() >= need => Ok((cs.drop_last(), c)),
            e => Err(VerifyErrorKind::TypeMismatch(cap_shape(need), e.shape())),
        }
    }
}

/// Takes a type off the constructor stack. An entry that names a region
/// that has been freed is refused, whatever it is.
pub open spec fn expect_type(cs: Seq<Entry>, env: Seq<CapState>) -> Result<
    (Seq<Entry>, Type),
    VerifyErrorKind,
> {
    if cs.len() == 0 {
        Err(VerifyErrorKind::StackUnderflow)
    } else if cs.last().names_freed(env) {
        Err(VerifyErrorKind::RegionEscape)
    } else {
        match cs.last() {
            Entry::Type(t) => Ok((cs.drop_last(), t)),
            e => Err(VerifyErrorKind::TypeMismatch(Shape::Type, e.shape())),
        }
    }
}

/// Takes `n` types off the constructor stack and puts them in front of
/// `acc`, so that the lowest of them comes first.
pub open spec fn expect_types(cs: Seq<Entry>, env: Seq<CapState>, n: nat, acc: TypeList) -> Result<
    (Seq<Entry>, TypeList),
    VerifyErrorKind,
>
    decreases n,
{
    if n == 0 {
        Ok((cs, acc))
    } else {
        match expect_type(cs, env) {
            Ok((rest, t)) => expect_types(
                rest,
                env,
                (n - 1) as nat,
                TypeList::Cons(Box::new(t), Box::new(acc)),
            ),
            Err(k) => Err(k),
        }
    }
}

/// Takes the entries above the innermost open scope off the constructor
/// stack, and its marker with them. The entries are put in front of `acc`, so
/// that the lowest of them comes first. None of them may name a region that
/// has been freed.
pub open spec fn innermost_scope(cs: Seq<Entry>, env: Seq<CapState>, acc: EntryList) -> Result<
    (Seq<Entry>, Quantifier, EntryList),
    VerifyErrorKind,
>
    decreases cs.len(),
{
    if cs.len() == 0 {
        Err(VerifyErrorKind::ScopeMismatch)
    } else if cs.last().names_freed(env) {
        Err(VerifyErrorKind::RegionEscape)
    } else {
        match cs.last() {
            Entry::Marker(q) => Ok((cs.drop_last(), q, acc)),
            e => innermost_scope(cs.drop_last(), env, EntryList::Cons(Box::new(e), Box::new(acc))),
        }
    }
}

/// Closes the innermost open scope, which must be of the kind `q`: what it
/// holds becomes one quantified type.
pub open spec fn close_scope(cs: Seq<Entry>, env: Seq<CapState>, q: Quantifier) -> Result<
    Seq<Entry>,
    VerifyErrorKind,
> {
    match innermost_scope(cs, env, EntryList::Nil) {
        Ok((rest, opened, body)) => if opened == q {
            Ok(rest.push(Entry::Type(Type::Quantified(q, body))))
        } else {
            Err(VerifyErrorKind::ScopeMismatch)
        },
        Err(k) => Err(k),
    }
}

/// The number of the local region whose capability the function holds, where
/// `region` is one.
pub open spec fn holding(env: Seq<CapState>, region: Region) -> Result<nat, VerifyErrorKind> {
    match region {
        Region::Local(id) if id < env.len() => match env[id as int] {
            CapState::Held => Ok(id as nat),
            CapState::Consumed => Err(VerifyErrorKind::CapabilityLinearity),
            CapState::Freed => Err(VerifyErrorKind::RegionEscape),
        },
        _ => Err(VerifyErrorKind::CapabilityLinearity),
    }
}

/// The capabilities after one with the given rights for region `id` was
/// used: exclusive rights are used up, others stay.
pub open spec fn spend(env: Seq<CapState>, id: nat, rights: Rights) -> Seq<CapState> {
    if rights.level() >= 2 {
        env.update(id as int, CapState::Consumed)
    } else {
        env
    }
}

/// What an opcode that works on the constructor stack alone makes of it.
/// `pc` is the offset of the opcode in its function. An entry that names a
/// region that has been freed can be dropped, and is refused with
/// `RegionEscape` where an opcode takes it or copies it.
pub open spec fn build_spec(cs: Seq<Entry>, env: Seq<CapState>, op: UnverifiedOpcode, pc: nat) -> Result<
    Seq<Entry>,
    VerifyErrorKind,
> {
    match op {
        UnverifiedOpcode::RegionOp => Ok(cs.push(Entry::Region(Region::Declared(pc as usize)))),
        UnverifiedOpcode::HeapOp => Ok(cs.push(Entry::Region(Region::Heap))),
        UnverifiedOpcode::UniqueOp => match expect_region(cs, env) {
            Ok((rest, region)) => Ok(rest.push(Entry::Cap(Capability { region, rights: Rights::Unique }))),
            Err(k) => Err(k),
        },
        UnverifiedOpcode::RWOp => match expect_region(cs, env) {
            Ok((rest, region)) => Ok(
                rest.push(Entry::Cap(Capability { region, rights: Rights::ReadWrite })),
            ),
            Err(k) => Err(k),
        },
        UnverifiedOpcode::HandleOp => match expect_region(cs, env) {
            Ok((rest, region)) => Ok(rest.push(Entry::Cap(Capability { region, rights: Rights::Handle }))),
            Err(k) => Err(k),
        },
        UnverifiedOpcode::BothOp => match expect_cap(cs, env, 0) {
            Ok((rest, second)) => match expect_cap(rest, env, 0) {
                Ok((rest2, first)) => if first.region == second.region {
                    Ok(
                        rest2.push(
                            Entry::Cap(
                                Capability {
                                    region: first.region,
                                    rights: Rights::Both(
                                        Box::new(first.rights),
                                        Box::new(second.rights),
                                    ),
                                },
                            ),
                        ),
                    )
                } else {
                    Err(VerifyErrorKind::TypeMismatch(Shape::Region, Shape::Region))
                },
                Err(k) => Err(k),
            },
            Err(k) => Err(k),
        },
        UnverifiedOpcode::I32Op => Ok(cs.push(Entry::Type(Type::I32))),
        UnverifiedOpcode::Word32Op => Ok(cs.push(Entry::Type(Type::Word32))),
        UnverifiedOpcode::Word64Op => Ok(cs.push(Entry::Type(Type::Word64))),
        UnverifiedOpcode::PtrOp => Ok(cs.push(Entry::Type(Type::Ptr))),
        UnverifiedOpcode::TupleOp(n) => match expect_types(cs, env, n as nat, TypeList::Nil) {
            Ok((rest, fields)) => Ok(rest.push(Entry::Type(Type::Tuple(fields)))),
            Err(k) => Err(k),
        },
        UnverifiedOpcode::ArrOp => match expect_type(cs, env) {
            Ok((rest, item)) => Ok(rest.push(Entry::Type(Type::Array(Box::new(item))))),
            Err(k) => Err(k),
        },
        UnverifiedOpcode::FuncOp(n) => match expect_cap(cs, env, 0) {
            Ok((rest, requirement)) => match expect_types(rest, env, n as nat, TypeList::Nil) {
                Ok((rest2, params)) => Ok(
                    rest2.push(Entry::Type(Type::Func(Box::new(FuncType { params, requirement })))),
                ),
                Err(k) => Err(k),
            },
            Err(k) => Err(k),
        },
        UnverifiedOpcode::AllOp => Ok(cs.push(Entry::Marker(Quantifier::All))),
        UnverifiedOpcode::SomeOp => Ok(cs.push(Entry::Marker(Quantifier::Exists))),
        UnverifiedOpcode::ForallOp => Ok(cs.push(Entry::Marker(Quantifier::Forall))),
        UnverifiedOpcode::RgnPolyOp => Ok(cs.push(Entry::Marker(Quantifier::RgnPoly))),
        UnverifiedOpcode::EmosOp => close_scope(cs, env, Quantifier::Exists),
        UnverifiedOpcode::LlarofOp => close_scope(cs, env, Quantifier::Forall),
        UnverifiedOpcode::YlopNgrOp => close_scope(cs, env, Quantifier::RgnPoly),
        UnverifiedOpcode::CTGetOp(n) => if n >= cs.len() {
            Err(VerifyErrorKind::StackUnderflow)
        } else if cs[cs.len() - 1 - n].names_freed(env) {
            Err(VerifyErrorKind::RegionEscape)
        } else {
            Ok(cs.push(cs[cs.len() - 1 - n]))
        },
        UnverifiedOpcode::CTPopOp => if cs.len() > 0 {
            Ok(cs.drop_last())
        } else {
            Err(VerifyErrorKind::StackUnderflow)
        },
        _ => Err(VerifyErrorKind::NoRule),
    }
}

/// Whether the values from slot `at` of the runtime-type stack upwards have
/// the types of `params`, in order; if not, how the lowest one that has not
/// differs.
pub open spec fn args_match(ts: Seq<StackType>, at: int, params: TypeList) -> Result<
    (),
    VerifyErrorKind,
>
    decreases params,
{
    match params {
        TypeList::Nil => Ok(()),
        TypeList::Cons(p, rest) => if ts[at] == StackType::Plain(*p) {
            args_match(ts, at + 1, *rest)
        } else {
            Err(VerifyErrorKind::TypeMismatch(p.shape(), ts[at].shape()))
        },
    }
}

/// The rule of `MallocOp`. The constructor stack holds a capability to read
/// and write on top of a tuple type; both are taken. The capability must be
/// held, and is used up if its rights are exclusive. A pointer to a tuple of
/// that type, with no field initialised, is pushed.
pub open spec fn malloc_spec(s: StateView) -> Result<(StateView, VerifiedOpcode), VerifyErrorKind> {
    match expect_cap(s.cstack, s.env, 1) {
        Err(k) => Err(k),
        Ok((rest, cap)) => match expect_type(rest, s.env) {
            Err(k) => Err(k),
            Ok((rest2, Type::Tuple(types))) => match holding(s.env, cap.region) {
                Err(k) => Err(k),
                Ok(id) => if types@.len() > usize::MAX {
                    Err(VerifyErrorKind::ArityMismatch)
                } else {
                    Ok(
                        (
                            StateView {
                                cstack: rest2,
                                tstack: s.tstack.push(
                                    StackType::TuplePtr(id as usize, FieldList::uninit(types)),
                                ),
                                env: spend(s.env, id, cap.rights),
                            },
                            VerifiedOpcode::Malloc {
                                region: id as usize,
                                arity: types@.len() as usize,
                            },
                        ),
                    )
                },
            },
            Ok((_, t)) => Err(VerifyErrorKind::TypeMismatch(Shape::Tuple, t.shape())),
        },
    }
}

/// The rule of `InitOp(n)`. The runtime-type stack holds a value on top of a
/// pointer to a tuple that is not yet fully initialised; neither names a
/// region that has been freed, the value has the type of field `n`, and the
/// capability of the pointer's region is held. Both are taken, and the
/// pointer is pushed back with field `n` initialised.
pub open spec fn init_spec(s: StateView, n: u8) -> Result<
    (StateView, VerifiedOpcode),
    VerifyErrorKind,
> {
    let len = s.tstack.len();
    if len < 2 {
        Err(VerifyErrorKind::StackUnderflow)
    } else if s.tstack[len - 1].names_freed(s.env) || s.tstack[len - 2].names_freed(s.env) {
        Err(VerifyErrorKind::RegionEscape)
    } else {
        match s.tstack[len - 2] {
            StackType::TuplePtr(id, fields) if !fields.all_init() => match fields.type_at(n as nat) {
                None => Err(VerifyErrorKind::ArityMismatch),
                Some(t) => if s.tstack[len - 1] != StackType::Plain(t) {
                    Err(VerifyErrorKind::TypeMismatch(t.shape(), s.tstack[len - 1].shape()))
                } else {
                    match holding(s.env, Region::Local(id)) {
                        Err(k) => Err(k),
                        Ok(_) => Ok(
                            (
                                StateView {
                                    tstack: s.tstack.take(len - 2).push(
                                        StackType::TuplePtr(id, fields.set_init(n as nat)),
                                    ),
                                    ..s
                                },
                                VerifiedOpcode::Init(n),
                            ),
                        ),
                    }
                },
            },
            p => Err(VerifyErrorKind::TypeMismatch(Shape::UninitTuplePtr, p.shape())),
        }
    }
}

/// The rule of `ProjOp(n)`. The runtime-type stack holds a pointer to a
/// fully initialised tuple, which names no region that has been freed, and
/// the capability of its region is held. The pointer is taken and the type
/// of field `n` is pushed.
pub open spec fn proj_spec(s: StateView, n: u8) -> Result<
    (StateView, VerifiedOpcode),
    VerifyErrorKind,
> {
    let len = s.tstack.len();
    if len < 1 {
        Err(VerifyErrorKind::StackUnderflow)
    } else if s.tstack[len - 1].names_freed(s.env) {
        Err(VerifyErrorKind::RegionEscape)
    } else {
        match s.tstack[len - 1] {
            StackType::TuplePtr(id, fields) if fields.all_init() => match fields.type_at(n as nat) {
                None => Err(VerifyErrorKind::ArityMismatch),
                Some(t) => match holding(s.env, Region::Local(id)) {
                    Err(k) => Err(k),
                    Ok(_) => Ok(
                        (
                            StateView {
                                tstack: s.tstack.take(len - 1).push(StackType::Plain(t)),
                                ..s
                            },
                            VerifiedOpcode::Proj(n),
                        ),
                    ),
                },
            },
            p => Err(VerifyErrorKind::TypeMismatch(Shape::TuplePtr, p.shape())),
        }
    }
}

/// The rule of `CallOp`. The runtime-type stack holds a function on top of
/// as many values as it takes, which have the types of its parameters, the
/// first parameter lowest; the type of the function names no region that
/// has been freed. The constructor stack holds, on top, a capability that
/// satisfies the function's requirement and is held. The function, the
/// arguments and the capability are taken; a capability with exclusive
/// rights is used up.
pub open spec fn call_spec(s: StateView) -> Result<(StateView, VerifiedOpcode), VerifyErrorKind> {
    let len = s.tstack.len();
    if len < 1 {
        Err(VerifyErrorKind::StackUnderflow)
    } else if s.tstack[len - 1].names_freed(s.env) {
        Err(VerifyErrorKind::RegionEscape)
    } else {
        match s.tstack[len - 1] {
            StackType::Plain(Type::Func(f)) => {
                let argc = f.params@.len();
                if len - 1 < argc || argc > usize::MAX {
                    Err(VerifyErrorKind::ArityMismatch)
                } else {
                    match args_match(s.tstack, len - 1 - argc, f.params) {
                        Err(k) => Err(k),
                        Ok(_) => match expect_cap(s.cstack, s.env, 0) {
                            Err(k) => Err(k),
                            Ok((rest, cap)) => if !cap.satisfies(f.requirement) {
                                Err(
                                    VerifyErrorKind::TypeMismatch(
                                        cap_shape(f.requirement.rights.level()),
                                        cap_shape(cap.rights.level()),
                                    ),
                                )
                            } else {
                                match holding(s.env, cap.region) {
                                    Err(k) => Err(k),
                                    Ok(id) => Ok(
                                        (
                                            StateView {
                                                cstack: rest,
                                                tstack: s.tstack.take(len - 1 - argc),
                                                env: spend(s.env, id, cap.rights),
                                            },
                                            VerifiedOpcode::Call { argc: argc as usize },
                                        ),
                                    ),
                                }
                            },
                        },
                    }
                }
            },
            t => Err(VerifyErrorKind::TypeMismatch(Shape::Func, t.shape())),
        }
    }
}

/// The rule of `FreeRgnOp`. The constructor stack holds, on top, an
/// exclusive capability, which is held; it is taken, and its region is freed.
pub open spec fn free_spec(s: StateView) -> Result<(StateView, VerifiedOpcode), VerifyErrorKind> {
    match expect_cap(s.cstack, s.env, 2) {
        Err(k) => Err(k),
        Ok((rest, cap)) => match holding(s.env, cap.region) {
            Err(k) => Err(k),
            Ok(id) => Ok(
                (
                    StateView {
                        cstack: rest,
                        env: s.env.update(id as int, CapState::Freed),
                        ..s
                    },
                    VerifiedOpcode::FreeRgn { region: id as usize },
                ),
            ),
        },
    }
}

/// The rule of `PackOp`. The constructor stack holds, on top, an existential
/// type whose last entry is the type of the value on top of the runtime-type
/// stack. The existential type is taken and becomes the type of the value.
pub open spec fn pack_spec(s: StateView) -> Result<(StateView, VerifiedOpcode), VerifyErrorKind> {
    let len = s.tstack.len();
    if len < 1 {
        Err(VerifyErrorKind::StackUnderflow)
    } else {
        match expect_type(s.cstack, s.env) {
            Err(k) => Err(k),
            Ok((rest, Type::Quantified(Quantifier::Exists, body))) => match body.last_type() {
                None => Err(VerifyErrorKind::TypeMismatch(Shape::Type, Shape::Quantified)),
                Some(t) => if s.tstack[len - 1] != StackType::Plain(t) {
                    Err(VerifyErrorKind::TypeMismatch(t.shape(), s.tstack[len - 1].shape()))
                } else {
                    Ok(
                        (
                            StateView {
                                cstack: rest,
                                tstack: s.tstack.take(len - 1).push(
                                    StackType::Plain(Type::Quantified(Quantifier::Exists, body)),
                                ),
                                ..s
                            },
                            VerifiedOpcode::Pack,
                        ),
                    )
                },
            },
            Ok((_, t)) => Err(VerifyErrorKind::TypeMismatch(Shape::Quantified, t.shape())),
        }
    }
}

/// The rule of `UnpackOp`. The value on top of the runtime-type stack has an
/// existential type whose last entry is a type; that type becomes the type
/// of the value.
pub open spec fn unpack_spec(s: StateView) -> Result<(StateView, VerifiedOpcode), VerifyErrorKind> {
    let len = s.tstack.len();
    if len < 1 {
        Err(VerifyErrorKind::StackUnderflow)
    } else if s.tstack[len - 1].names_freed(s.env) {
        Err(VerifyErrorKind::RegionEscape)
    } else {
        match s.tstack[len - 1] {
            StackType::Plain(Type::Quantified(Quantifier::Exists, body)) => match body.last_type() {
                None => Err(VerifyErrorKind::TypeMismatch(Shape::Type, Shape::Quantified)),
                Some(t) => Ok(
                    (
                        StateView { tstack: s.tstack.take(len - 1).push(StackType::Plain(t)), ..s },
                        VerifiedOpcode::Unpack,
                    ),
                ),
            },
            t => Err(VerifyErrorKind::TypeMismatch(Shape::Quantified, t.shape())),
        }
    }
}

/// What one opcode makes of a verifier state, and what is left of the opcode
/// for the machine; or why the opcode is refused.
///
/// `table` holds the declared type of each function, `count` is the number
/// of functions of the program, and `pc` is the offset of the opcode in its
/// function.
///
/// A literal pushes the type of integers. A reference to a function pushes
/// the declared type of the function, and is refused with
/// `UnknownReference` where no function has the index. `GetOp(n)` copies the
/// type that lies `n` slots below the top. `PrintOp` needs a value on the
/// stack and leaves it there. `HaltOp` needs nothing. `NewRgnOp` makes a
/// region: the token of the region and an exclusive capability for it go on
/// the constructor stack, its handle goes on the value stack, and the
/// capability is held. The other opcodes that work with values have a rule
/// of their own each, and every other opcode works on the constructor stack
/// alone.
pub open spec fn step_spec(
    table: Seq<FuncType>,
    count: nat,
    s: StateView,
    op: UnverifiedOpcode,
    pc: nat,
) -> Result<(StateView, VerifiedOpcode), VerifyErrorKind> {
    match op {
        UnverifiedOpcode::LitOp(i) => Ok(
            (
                StateView { tstack: s.tstack.push(StackType::Plain(Type::I32)), ..s },
                VerifiedOpcode::Lit(i),
            ),
        ),
        UnverifiedOpcode::GlobalFuncOp(i) => if i < table.len() && i < count {
            Ok(
                (
                    StateView {
                        tstack: s.tstack.push(
                            StackType::Plain(Type::Func(Box::new(table[i as int]))),
                        ),
                        ..s
                    },
                    VerifiedOpcode::GlobalFunc(i),
                ),
            )
        } else {
            Err(VerifyErrorKind::UnknownReference)
        },
        UnverifiedOpcode::GetOp(n) => if n >= s.tstack.len() {
            Err(VerifyErrorKind::StackUnderflow)
        } else if s.tstack[s.tstack.len() - 1 - n].names_freed(s.env) {
            Err(VerifyErrorKind::RegionEscape)
        } else {
            Ok(
                (
                    StateView { tstack: s.tstack.push(s.tstack[s.tstack.len() - 1 - n]), ..s },
                    VerifiedOpcode::Get(n),
                ),
            )
        },
        UnverifiedOpcode::PrintOp => if s.tstack.len() == 0 {
            Err(VerifyErrorKind::StackUnderflow)
        } else if s.tstack.last().names_freed(s.env) {
            Err(VerifyErrorKind::RegionEscape)
        } else {
            Ok((s, VerifiedOpcode::Print))
        },
        UnverifiedOpcode::HaltOp(code) => Ok((s, VerifiedOpcode::Halt(code))),
        UnverifiedOpcode::NewRgnOp => {
            let id = s.env.len() as usize;
            Ok(
                (
                    StateView {
                        cstack: s.cstack.push(Entry::Region(Region::Local(id))).push(
                            Entry::Cap(Capability { region: Region::Local(id), rights: Rights::Unique }),
                        ),
                        tstack: s.tstack.push(StackType::Handle(id)),
                        env: s.env.push(CapState::Held),
                    },
                    VerifiedOpcode::NewRgn,
                ),
            )
        },
        UnverifiedOpcode::FreeRgnOp => free_spec(s),
        UnverifiedOpcode::MallocOp => malloc_spec(s),
        UnverifiedOpcode::InitOp(n) => init_spec(s, n),
        UnverifiedOpcode::ProjOp(n) => proj_spec(s, n),
        UnverifiedOpcode::CallOp => call_spec(s),
        UnverifiedOpcode::PackOp => pack_spec(s),
        UnverifiedOpcode::UnpackOp => unpack_spec(s),
        _ => match build_spec(s.cstack, s.env, op, pc) {
            Ok(cs) => Ok((StateView { cstack: cs, ..s }, VerifiedOpcode::Static(op))),
            Err(k) => Err(k),
        },
    }
}

/// Computes `expect_region` on the stack itself.
fn pop_region(cs: &mut Vec<Entry>, env: &Vec<CapState>) -> (res: Result<Region, VerifyErrorKind>)
    ensures
        match res {
            Ok(r) => expect_region(old(cs)@, env@) == Ok::<_, VerifyErrorKind>((final(cs)@, r)),
            Err(k) => expect_region(old(cs)@, env@) == Err::<(Seq<Entry>, Region), _>(k),
        },
{
    match cs.pop() {
        None => Err(VerifyErrorKind::StackUnderflow),
        Some(e) => {
            if e.is_freed(env) {
                return Err(VerifyErrorKind::RegionEscape);
            }
            match e {
                Entry::Region(r) => Ok(r),
                _ => Err(VerifyErrorKind::TypeMismatch(Shape::Region, e.shape_of())),
            }
        },
    }
}

/// Computes `expect_cap` on the stack itself.
fn pop_cap(cs: &mut Vec<Entry>, env: &Vec<CapState>, need: u8) -> (res: Result<
    Capability,
    VerifyErrorKind,
>)
    ensures
        match res {
            Ok(c) => expect_cap(old(cs)@, env@, need as nat) == Ok::<_, VerifyErrorKind>(
                (final(cs)@, c),
            ),
            Err(k) => expect_cap(old(cs)@, env@, need as nat) == Err::<(Seq<Entry>, Capability), _>(
                k,
            ),
        },
{
    match cs.pop() {
        None => Err(VerifyErrorKind::StackUnderflow),
        Some(e) => {
            if e.is_freed(env) {
                return Err(VerifyErrorKind::RegionEscape);
            }
            let found = e.shape_of();
            match e {
                Entry::Cap(c) => {
                    if c.rights.strength() >= need {
                        Ok(c)
                    } else {
                        Err(VerifyErrorKind::TypeMismatch(cap_shape_of(need), found))
                    }
                },
                _ => Err(VerifyErrorKind::TypeMismatch(cap_shape_of(need), found)),
            }
        },
    }
}

/// Computes `expect_type` on the stack itself.
fn pop_type(cs: &mut Vec<Entry>, env: &Vec<CapState>) -> (res: Result<Type, VerifyErrorKind>)
    ensures
        match res {
            Ok(t) => expect_type(old(cs)@, env@) == Ok::<_, VerifyErrorKind>((final(cs)@, t)),
            Err(k) => expect_type(old(cs)@, env@) == Err::<(Seq<Entry>, Type), _>(k),
        },
{
    match cs.pop() {
        None => Err(VerifyErrorKind::StackUnderflow),
        Some(e) => {
            if e.is_freed(env) {
                return Err(VerifyErrorKind::RegionEscape);
            }
            match e {
                Entry::Type(t) => Ok(t),
                _ => Err(VerifyErrorKind::TypeMismatch(Shape::Type, e.shape_of())),
            }
        },
    }
}

/// Computes `expect_types` on the stack itself.
fn pop_types(cs: &mut Vec<Entry>, env: &Vec<CapState>, n: u8) -> (res: Result<
    TypeList,
    VerifyErrorKind,
>)
    ensures
        match res {
            Ok(l) => expect_types(old(cs)@, env@, n as nat, TypeList::Nil) == Ok::<
                _,
                VerifyErrorKind,
            >((final(cs)@, l)),
            Err(k) => expect_types(old(cs)@, env@, n as nat, TypeList::Nil) == Err::<
                (Seq<Entry>, TypeList),
                _,
            >(k),
        },
{
    let ghost start = cs@;
    let mut acc = TypeList::Nil;
    let mut left: u8 = n;
    while left > 0
        invariant
            start == old(cs)@,
            expect_types(start, env@, n as nat, TypeList::Nil) == expect_types(
                cs@,
                env@,
                left as nat,
                acc,
            ),
        decreases left,
    {
        match pop_type(cs, env) {
            Err(k) => {
                return Err(k);
            },
            Ok(t) => {
                acc = TypeList::Cons(Box::new(t), Box::new(acc));
                left = left - 1;
            },
        }
    }
    Ok(acc)
}

/// Computes `close_scope` on the stack itself.
fn close(cs: &mut Vec<Entry>, env: &Vec<CapState>, q: Quantifier) -> (res: Result<
    (),
    VerifyErrorKind,
>)
    ensures
        match res {
            Ok(_) => close_scope(old(cs)@, env@, q) == Ok::<_, VerifyErrorKind>(final(cs)@),
            Err(k) => close_scope(old(cs)@, env@, q) == Err::<Seq<Entry>, _>(k),
        },
{
    let ghost start = cs@;
    let mut acc = EntryList::Nil;
    loop
        invariant
            start == old(cs)@,
            innermost_scope(start, env@, EntryList::Nil) == innermost_scope(cs@, env@, acc),
        decreases cs@.len(),
    {
        match cs.pop() {
            None => {
                return Err(VerifyErrorKind::ScopeMismatch);
            },
            Some(e) => {
                if e.is_freed(env) {
                    return Err(VerifyErrorKind::RegionEscape);
                }
                match e {
                    Entry::Marker(opened) => {
                        if opened == q {
                            cs.push(Entry::Type(Type::Quantified(q, acc)));
                            return Ok(());
                        }
                        return Err(VerifyErrorKind::ScopeMismatch);
                    },
                    other => {
                        acc = EntryList::Cons(Box::new(other), Box::new(acc));
                    },
                }
            },
        }
    }
}

/// Computes `holding`.
fn held(env: &Vec<CapState>, region: Region) -> (res: Result<usize, VerifyErrorKind>)
    ensures
        match res {
            Ok(id) => holding(env@, region) == Ok::<nat, VerifyErrorKind>(id as nat) && id
                < env@.len(),
            Err(k) => holding(env@, region) == Err::<nat, _>(k),
        },
{
    match region {
        Region::Local(id) => {
            if id < env.len() {
                match env[id] {
                    CapState::Held => Ok(id),
                    CapState::Consumed => Err(VerifyErrorKind::CapabilityLinearity),
                    CapState::Freed => Err(VerifyErrorKind::RegionEscape),
                }
            } else {
                Err(VerifyErrorKind::CapabilityLinearity)
            }
        },
        _ => Err(VerifyErrorKind::CapabilityLinearity),
    }
}

/// Computes `spend` on the capabilities themselves.
fn spend_cap(env: &mut Vec<CapState>, id: usize, rights: &Rights)
    requires
        id < old(env)@.len(),
    ensures
        final(env)@ == spend(old(env)@, id as nat, *rights),
{
    if rights.strength() >= 2 {
        env.set(id, CapState::Consumed);
    }
}

/// Computes `build_spec`.
fn build(cs: Vec<Entry>, env: &Vec<CapState>, op: UnverifiedOpcode, pc: usize) -> (res: Result<
    Vec<Entry>,
    VerifyErrorKind,
>)
    ensures
        match res {
            Ok(next) => build_spec(cs@, env@, op, pc as nat) == Ok::<_, VerifyErrorKind>(next@),
            Err(k) => build_spec(cs@, env@, op, pc as nat) == Err::<Seq<Entry>, _>(k),
        },
{
    let mut cs = cs;
    match op {
        UnverifiedOpcode::RegionOp => {
            cs.push(Entry::Region(Region::Declared(pc)));
        },
        UnverifiedOpcode::HeapOp => {
            cs.push(Entry::Region(Region::Heap));
        },
        UnverifiedOpcode::UniqueOp => {
            let region = pop_region(&mut cs, env)?;
            cs.push(Entry::Cap(Capability { region, rights: Rights::Unique }));
        },
        UnverifiedOpcode::RWOp => {
            let region = pop_region(&mut cs, env)?;
            cs.push(Entry::Cap(Capability { region, rights: Rights::ReadWrite }));
        },
        UnverifiedOpcode::HandleOp => {
            let region = pop_region(&mut cs, env)?;
            cs.push(Entry::Cap(Capability { region, rights: Rights::Handle }));
        },
        UnverifiedOpcode::BothOp => {
            let second = pop_cap(&mut cs, env, 0)?;
            let first = pop_cap(&mut cs, env, 0)?;
            if first.region == second.region {
                cs.push(
                    Entry::Cap(
                        Capability {
                            region: first.region,
                            rights: Rights::Both(Box::new(first.rights), Box::new(second.rights)),
                        },
                    ),
                );
            } else {
                return Err(VerifyErrorKind::TypeMismatch(Shape::Region, Shape::Region));
            }
        },
        UnverifiedOpcode::I32Op => {
            cs.push(Entry::Type(Type::I32));
        },
        UnverifiedOpcode::Word32Op => {
            cs.push(Entry::Type(Type::Word32));
        },
        UnverifiedOpcode::Word64Op => {
            cs.push(Entry::Type(Type::Word64));
        },
        UnverifiedOpcode::PtrOp => {
            cs.push(Entry::Type(Type::Ptr));
        },
        UnverifiedOpcode::TupleOp(n) => {
            let fields = pop_types(&mut cs, env, n)?;
            cs.push(Entry::Type(Type::Tuple(fields)));
        },
        UnverifiedOpcode::ArrOp => {
            let item = pop_type(&mut cs, env)?;
            cs.push(Entry::Type(Type::Array(Box::new(item))));
        },
        UnverifiedOpcode::FuncOp(n) => {
            let requirement = pop_cap(&mut cs, env, 0)?;
            let params = pop_types(&mut cs, env, n)?;
            cs.push(Entry::Type(Type::Func(Box::new(FuncType { params, requirement }))));
        },
        UnverifiedOpcode::AllOp => {
            cs.push(Entry::Marker(Quantifier::All));
        },
        UnverifiedOpcode::SomeOp => {
            cs.push(Entry::Marker(Quantifier::Exists));
        },
        UnverifiedOpcode::ForallOp => {
            cs.push(Entry::Marker(Quantifier::Forall));
        },
        UnverifiedOpcode::RgnPolyOp => {
            cs.push(Entry::Marker(Quantifier::RgnPoly));
        },
        UnverifiedOpcode::EmosOp => {
            close(&mut cs, env, Quantifier::Exists)?;
        },
        UnverifiedOpcode::LlarofOp => {
            close(&mut cs, env, Quantifier::Forall)?;
        },
        UnverifiedOpcode::YlopNgrOp => {
            close(&mut cs, env, Quantifier::RgnPoly)?;
        },
        UnverifiedOpcode::CTGetOp(n) => {
            let len = cs.len();
            if (n as usize) >= len {
                return Err(VerifyErrorKind::StackUnderflow);
            }
            if cs[len - 1 - n as usize].is_freed(env) {
                return Err(VerifyErrorKind::RegionEscape);
            }
            let copy = cs[len - 1 - n as usize].clone();
            cs.push(copy);
        },
        UnverifiedOpcode::CTPopOp => {
            if cs.len() > 0 {
                cs.pop();
            } else {
                return Err(VerifyErrorKind::StackUnderflow);
            }
        },
        _ => {
            return Err(VerifyErrorKind::NoRule);
        },
    }
    Ok(cs)
}

/// Computes `args_match`.
fn check_args(ts: &Vec<StackType>, at: usize, params: &TypeList) -> (res: Result<
    (),
    VerifyErrorKind,
>)
    requires
        at + params@.len() <= ts@.len() <= usize::MAX,
    ensures
        res == args_match(ts@, at as int, *params),
    decreases params,
{
    match params {
        TypeList::Nil => Ok(()),
        TypeList::Cons(p, rest) => {
            assert(params@.len() == 1 + rest@.len());
            let fits = match &ts[at] {
                StackType::Plain(t) => t.same(&**p),
                _ => false,
            };
            if fits {
                check_args(ts, at + 1, &**rest)
            } else {
                Err(VerifyErrorKind::TypeMismatch((**p).shape_of(), ts[at].shape_of()))
            }
        },
    }
}

/// Computes `malloc_spec`.
fn malloc(state: State) -> (res: Result<(State, VerifiedOpcode), VerifyErrorKind>)
    ensures
        match res {
            Ok((next, vop)) => malloc_spec(state@) == Ok::<_, VerifyErrorKind>((next@, vop)),
            Err(k) => malloc_spec(state@) == Err::<(StateView, VerifiedOpcode), _>(k),
        },
{
    let State { cstack, tstack, env } = state;
    let mut cstack = cstack;
    let mut tstack = tstack;
    let mut env = env;
    let cap = pop_cap(&mut cstack, &env, 1)?;
    let ty = pop_type(&mut cstack, &env)?;
    match ty {
        Type::Tuple(types) => {
            let id = held(&env, cap.region)?;
            match types.count(usize::MAX) {
                None => Err(VerifyErrorKind::ArityMismatch),
                Some(arity) => {
                    spend_cap(&mut env, id, &cap.rights);
                    tstack.push(StackType::TuplePtr(id, FieldList::new_uninit(types)));
                    Ok((State { cstack, tstack, env }, VerifiedOpcode::Malloc { region: id, arity }))
                },
            }
        },
        other => Err(VerifyErrorKind::TypeMismatch(Shape::Tuple, other.shape_of())),
    }
}

/// Computes `init_spec`.
fn init(state: State, n: u8) -> (res: Result<(State, VerifiedOpcode), VerifyErrorKind>)
    ensures
        match res {
            Ok((next, vop)) => init_spec(state@, n) == Ok::<_, VerifyErrorKind>((next@, vop)),
            Err(k) => init_spec(state@, n) == Err::<(StateView, VerifiedOpcode), _>(k),
        },
{
    let State { cstack, tstack, env } = state;
    let mut tstack = tstack;
    let ghost before = tstack@;
    let len = tstack.len();
    if len < 2 {
        return Err(VerifyErrorKind::StackUnderflow);
    }
    if tstack[len - 1].is_freed(&env) || tstack[len - 2].is_freed(&env) {
        return Err(VerifyErrorKind::RegionEscape);
    }
    let value = tstack.pop().unwrap();
    let pointer = tstack.pop().unwrap();
    assert(tstack@ =~= before.take(before.len() - 2));
    let found = pointer.shape_of();
    match pointer {
        StackType::TuplePtr(id, fields) => {
            if fields.is_all_init() {
                return Err(VerifyErrorKind::TypeMismatch(Shape::UninitTuplePtr, found));
            }
            let fits = match fields.field_type(n as usize) {
                None => {
                    return Err(VerifyErrorKind::ArityMismatch);
                },
                Some(t) => {
                    let same = match &value {
                        StackType::Plain(v) => v.same(t),
                        _ => false,
                    };
                    if !same {
                        return Err(VerifyErrorKind::TypeMismatch(t.shape_of(), value.shape_of()));
                    }
                    same
                },
            };
            let _ = held(&env, Region::Local(id))?;
            tstack.push(StackType::TuplePtr(id, fields.with_init(n as usize)));
            Ok((State { cstack, tstack, env }, VerifiedOpcode::Init(n)))
        },
        _ => Err(VerifyErrorKind::TypeMismatch(Shape::UninitTuplePtr, found)),
    }
}

/// Computes `proj_spec`.
fn proj(state: State, n: u8) -> (res: Result<(State, VerifiedOpcode), VerifyErrorKind>)
    ensures
        match res {
            Ok((next, vop)) => proj_spec(state@, n) == Ok::<_, VerifyErrorKind>((next@, vop)),
            Err(k) => proj_spec(state@, n) == Err::<(StateView, VerifiedOpcode), _>(k),
        },
{
    let State { cstack, tstack, env } = state;
    let mut tstack = tstack;
    let ghost before = tstack@;
    let len = tstack.len();
    if len < 1 {
        return Err(VerifyErrorKind::StackUnderflow);
    }
    if tstack[len - 1].is_freed(&env) {
        return Err(VerifyErrorKind::RegionEscape);
    }
    let pointer = tstack.pop().unwrap();
    assert(tstack@ =~= before.take(before.len() - 1));
    let found = pointer.shape_of();
    match pointer {
        StackType::TuplePtr(id, fields) => {
            if !fields.is_all_init() {
                return Err(VerifyErrorKind::TypeMismatch(Shape::TuplePtr, found));
            }
            let field = match fields.field_type(n as usize) {
                None => {
                    return Err(VerifyErrorKind::ArityMismatch);
                },
                Some(t) => t.clone(),
            };
            let _ = held(&env, Region::Local(id))?;
            tstack.push(StackType::Plain(field));
            Ok((State { cstack, tstack, env }, VerifiedOpcode::Proj(n)))
        },
        _ => Err(VerifyErrorKind::TypeMismatch(Shape::TuplePtr, found)),
    }
}

/// Computes `call_spec`.
fn call(state: State) -> (res: Result<(State, VerifiedOpcode), VerifyErrorKind>)
    ensures
        match res {
            Ok((next, vop)) => call_spec(state@) == Ok::<_, VerifyErrorKind>((next@, vop)),
            Err(k) => call_spec(state@) == Err::<(StateView, VerifiedOpcode), _>(k),
        },
{
    let State { cstack, tstack, env } = state;
    let mut cstack = cstack;
    let mut tstack = tstack;
    let mut env = env;
    let len = tstack.len();
    if len < 1 {
        return Err(VerifyErrorKind::StackUnderflow);
    }
    if tstack[len - 1].is_freed(&env) {
        return Err(VerifyErrorKind::RegionEscape);
    }
    let (argc, need_region, need_level) = match &tstack[len - 1] {
        StackType::Plain(Type::Func(f)) => {
            let argc = match f.params.count(len - 1) {
                None => {
                    return Err(VerifyErrorKind::ArityMismatch);
                },
                Some(k) => k,
            };
            check_args(&tstack, len - 1 - argc, &f.params)?;
            (argc, f.requirement.region, f.requirement.rights.strength())
        },
        other => {
            return Err(VerifyErrorKind::TypeMismatch(Shape::Func, other.shape_of()));
        },
    };
    let cap = pop_cap(&mut cstack, &env, 0)?;
    let level = cap.rights.strength();
    if !(cap.region == need_region && level >= need_level) {
        return Err(VerifyErrorKind::TypeMismatch(cap_shape_of(need_level), cap_shape_of(level)));
    }
    let id = held(&env, cap.region)?;
    spend_cap(&mut env, id, &cap.rights);
    tstack.truncate(len - 1 - argc);
    assert(tstack@ =~= state@.tstack.take(len - 1 - argc));
    Ok((State { cstack, tstack, env }, VerifiedOpcode::Call { argc }))
}

/// Computes `free_spec`.
fn free(state: State) -> (res: Result<(State, VerifiedOpcode), VerifyErrorKind>)
    ensures
        match res {
            Ok((next, vop)) => free_spec(state@) == Ok::<_, VerifyErrorKind>((next@, vop)),
            Err(k) => free_spec(state@) == Err::<(StateView, VerifiedOpcode), _>(k),
        },
{
    let State { cstack, tstack, env } = state;
    let mut cstack = cstack;
    let mut env = env;
    let cap = pop_cap(&mut cstack, &env, 2)?;
    let id = held(&env, cap.region)?;
    env.set(id, CapState::Freed);
    Ok((State { cstack, tstack, env }, VerifiedOpcode::FreeRgn { region: id }))
}

/// Computes `pack_spec`.
fn pack(state: State) -> (res: Result<(State, VerifiedOpcode), VerifyErrorKind>)
    ensures
        match res {
            Ok((next, vop)) => pack_spec(state@) == Ok::<_, VerifyErrorKind>((next@, vop)),
            Err(k) => pack_spec(state@) == Err::<(StateView, VerifiedOpcode), _>(k),
        },
{
    let State { cstack, tstack, env } = state;
    let mut cstack = cstack;
    let mut tstack = tstack;
    let ghost before = tstack@;
    let len = tstack.len();
    if len < 1 {
        return Err(VerifyErrorKind::StackUnderflow);
    }
    let ty = pop_type(&mut cstack, &env)?;
    let found = ty.shape_of();
    match ty {
        Type::Quantified(Quantifier::Exists, body) => {
            match body.last_type_of() {
                None => {
                    return Err(VerifyErrorKind::TypeMismatch(Shape::Type, Shape::Quantified));
                },
                Some(t) => {
                    let same = match &tstack[len - 1] {
                        StackType::Plain(v) => v.same(t),
                        _ => false,
                    };
                    if !same {
                        return Err(
                            VerifyErrorKind::TypeMismatch(t.shape_of(), tstack[len - 1].shape_of()),
                        );
                    }
                },
            }
            tstack.pop();
            assert(tstack@ =~= before.take(before.len() - 1));
            tstack.push(StackType::Plain(Type::Quantified(Quantifier::Exists, body)));
            Ok((State { cstack, tstack, env }, VerifiedOpcode::Pack))
        },
        _ => Err(VerifyErrorKind::TypeMismatch(Shape::Quantified, found)),
    }
}

/// Computes `unpack_spec`.
fn unpack(state: State) -> (res: Result<(State, VerifiedOpcode), VerifyErrorKind>)
    ensures
        match res {
            Ok((next, vop)) => unpack_spec(state@) == Ok::<_, VerifyErrorKind>((next@, vop)),
            Err(k) => unpack_spec(state@) == Err::<(StateView, VerifiedOpcode), _>(k),
        },
{
    let State { cstack, tstack, env } = state;
    let mut tstack = tstack;
    let ghost before = tstack@;
    let len = tstack.len();
    if len < 1 {
        return Err(VerifyErrorKind::StackUnderflow);
    }
    if tstack[len - 1].is_freed(&env) {
        return Err(VerifyErrorKind::RegionEscape);
    }
    let top = tstack.pop().unwrap();
    assert(tstack@ =~= before.take(before.len() - 1));
    let found = top.shape_of();
    match top {
        StackType::Plain(Type::Quantified(Quantifier::Exists, body)) => {
            let inner = match body.last_type_of() {
                None => {
                    return Err(VerifyErrorKind::TypeMismatch(Shape::Type, Shape::Quantified));
                },
                Some(t) => t.clone(),
            };
            tstack.push(StackType::Plain(inner));
            Ok((State { cstack, tstack, env }, VerifiedOpcode::Unpack))
        },
        _ => Err(VerifyErrorKind::TypeMismatch(Shape::Quantified, found)),
    }
}

/// Applies one opcode to a verifier state.
///
/// `table` holds the declared type of each function, `count` is the number
/// of functions of the program, and `pc` is the offset of the opcode in its
/// function. The result is the state behind the opcode, with what is left of
/// the opcode for the machine, or the reason why the opcode is refused.
pub fn step(
    table: &Vec<FuncType>,
    count: usize,
    state: State,
    op: UnverifiedOpcode,
    pc: usize,
) -> (res: Result<(State, VerifiedOpcode), VerifyErrorKind>)
    ensures
        match res {
            Ok((next, vop)) => step_spec(table@, count as nat, state@, op, pc as nat) == Ok::<
                _,
                VerifyErrorKind,
            >((next@, vop)),
            Err(k) => step_spec(table@, count as nat, state@, op, pc as nat) == Err::<
                (StateView, VerifiedOpcode),
                _,
            >(k),
        },
{
    match op {
        UnverifiedOpcode::LitOp(i) => {
            let State { cstack, tstack, env } = state;
            let mut tstack = tstack;
            tstack.push(StackType::Plain(Type::I32));
            Ok((State { cstack, tstack, env }, VerifiedOpcode::Lit(i)))
        },
        UnverifiedOpcode::GlobalFuncOp(i) => {
            if (i as usize) < table.len() && (i as usize) < count {
                let State { cstack, tstack, env } = state;
                let mut tstack = tstack;
                tstack.push(StackType::Plain(Type::Func(Box::new(table[i as usize].clone()))));
                Ok((State { cstack, tstack, env }, VerifiedOpcode::GlobalFunc(i)))
            } else {
                Err(VerifyErrorKind::UnknownReference)
            }
        },
        UnverifiedOpcode::GetOp(n) => {
            let State { cstack, tstack, env } = state;
            let mut tstack = tstack;
            let len = tstack.len();
            if (n as usize) >= len {
                Err(VerifyErrorKind::StackUnderflow)
            } else if tstack[len - 1 - n as usize].is_freed(&env) {
                Err(VerifyErrorKind::RegionEscape)
            } else {
                let copy = tstack[len - 1 - n as usize].clone();
                tstack.push(copy);
                Ok((State { cstack, tstack, env }, VerifiedOpcode::Get(n)))
            }
        },
        UnverifiedOpcode::PrintOp => {
            let len = state.tstack.len();
            if len == 0 {
                Err(VerifyErrorKind::StackUnderflow)
            } else if state.tstack[len - 1].is_freed(&state.env) {
                Err(VerifyErrorKind::RegionEscape)
            } else {
                Ok((state, VerifiedOpcode::Print))
            }
        },
        UnverifiedOpcode::HaltOp(code) => Ok((state, VerifiedOpcode::Halt(code))),
        UnverifiedOpcode::NewRgnOp => {
            let State { cstack, tstack, env } = state;
            let mut cstack = cstack;
            let mut tstack = tstack;
            let mut env = env;
            let id = env.len();
            cstack.push(Entry::Region(Region::Local(id)));
            cstack.push(Entry::Cap(Capability { region: Region::Local(id), rights: Rights::Unique }));
            tstack.push(StackType::Handle(id));
            env.push(CapState::Held);
            Ok((State { cstack, tstack, env }, VerifiedOpcode::NewRgn))
        },
        UnverifiedOpcode::FreeRgnOp => free(state),
        UnverifiedOpcode::MallocOp => malloc(state),
        UnverifiedOpcode::InitOp(n) => init(state, n),
        UnverifiedOpcode::ProjOp(n) => proj(state, n),
        UnverifiedOpcode::CallOp => call(state),
        UnverifiedOpcode::PackOp => pack(state),
        UnverifiedOpcode::UnpackOp => unpack(state),
        _ => {
            let State { cstack, tstack, env } = state;
            let cstack = build(cstack, &env, op, pc)?;
            Ok((State { cstack, tstack, env }, VerifiedOpcode::Static(op)))
        },
    }
}

/// A function that has been verified: its label and its opcodes, each as
/// the machine needs it.
#[derive(Debug, PartialEq, Eq)]
pub struct VerifiedStmt {
    pub label: u32,
    pub code: Vec<VerifiedOpcode>,
}

/// What a verified function is to a specification.
pub struct VerifiedFuncView {
    pub label: u32,
    pub code: Seq<VerifiedOpcode>,
}

impl View for VerifiedStmt {
    type V = VerifiedFuncView;

    open spec fn view(&self) -> VerifiedFuncView {
        VerifiedFuncView { label: self.label, code: self.code@ }
    }
}

/// The verified functions as a sequence of labelled bodies.
pub open spec fn verified_view(stmts: Seq<VerifiedStmt>) -> Seq<VerifiedFuncView> {
    stmts.map_values(|f: VerifiedStmt| f@)
}

/// The opcodes of a verified function as they were before verification.
pub open spec fn erased(code: Seq<VerifiedOpcode>) -> Seq<UnverifiedOpcode> {
    code.map_values(|v: VerifiedOpcode| v.erase())
}

/// The runtime-type stack that holds one value of each of the given types.
pub open spec fn plain_types(params: TypeList) -> Seq<StackType>
    decreases params,
{
    match params {
        TypeList::Nil => Seq::empty(),
        TypeList::Cons(t, rest) => seq![StackType::Plain(*t)] + plain_types(*rest),
    }
}

/// The state in which the verification of a function with the given
/// parameters begins: the arguments are on the value stack, the first one
/// lowest, and nothing else is there.
pub open spec fn entry_state(params: TypeList) -> StateView {
    StateView { cstack: Seq::empty(), tstack: plain_types(params), env: Seq::empty() }
}

/// `done`, followed by what the rest of a body verifies to.
pub open spec fn verified_after(
    done: Seq<VerifiedOpcode>,
    rest: Result<Seq<VerifiedOpcode>, (nat, VerifyErrorKind)>,
) -> Result<Seq<VerifiedOpcode>, (nat, VerifyErrorKind)> {
    match rest {
        Ok(code) => Ok(done + code),
        Err(e) => Err(e),
    }
}

/// Whether the last opcode of the body halts the machine.
pub open spec fn ends_with_halt(body: Seq<UnverifiedOpcode>) -> bool {
    body.len() > 0 && body.last() is HaltOp
}

/// Verifies the opcodes of `body` from offset `pc` on, beginning in state
/// `s`. The opcodes are applied in order; the first one that is refused ends
/// the verification with its offset and the reason. A function that does
/// not end by halting the machine returns to its caller, and must leave the
/// value stack empty; if it does not, the verification ends with the length
/// of the body and `ArityMismatch`.
pub open spec fn check_from(
    table: Seq<FuncType>,
    count: nat,
    s: StateView,
    body: Seq<UnverifiedOpcode>,
    pc: nat,
) -> Result<Seq<VerifiedOpcode>, (nat, VerifyErrorKind)>
    decreases body.len() - pc,
{
    if pc >= body.len() {
        if s.tstack.len() == 0 || ends_with_halt(body) {
            Ok(Seq::empty())
        } else {
            Err((body.len(), VerifyErrorKind::ArityMismatch))
        }
    } else {
        match step_spec(table, count, s, body[pc as int], pc) {
            Err(k) => Err((pc, k)),
            Ok((next, vop)) => verified_after(seq![vop], check_from(table, count, next, body, pc + 1)),
        }
    }
}

/// Verifies the function with the given index. Its declared type is the
/// entry of `table` with that index; without one the function is refused
/// with `UnknownReference`. The function with index 0 is where a program
/// starts, so it takes no parameters, or is refused with `ArityMismatch`.
/// Both errors carry the offset 0.
pub open spec fn check_function(
    table: Seq<FuncType>,
    count: nat,
    index: nat,
    f: FuncView,
) -> Result<Seq<VerifiedOpcode>, Error> {
    if index >= table.len() {
        Err(Error::VerificationError(f.label, 0, VerifyErrorKind::UnknownReference))
    } else if index == 0 && table[0].params != TypeList::Nil {
        Err(Error::VerificationError(f.label, 0, VerifyErrorKind::ArityMismatch))
    } else {
        match check_from(table, count, entry_state(table[index as int].params), f.body, 0) {
            Ok(code) => Ok(code),
            Err((pc, k)) => Err(Error::VerificationError(f.label, pc as usize, k)),
        }
    }
}

/// `done`, followed by what the rest of a program verifies to.
pub open spec fn program_after(
    done: Seq<VerifiedFuncView>,
    rest: Result<Seq<VerifiedFuncView>, Error>,
) -> Result<Seq<VerifiedFuncView>, Error> {
    match rest {
        Ok(fs) => Ok(done + fs),
        Err(e) => Err(e),
    }
}

/// Verifies the functions with index `index` and above, in order, up to the
/// first one that is refused.
pub open spec fn verify_from(table: Seq<FuncType>, stmts: Seq<FuncView>, index: nat) -> Result<
    Seq<VerifiedFuncView>,
    Error,
>
    decreases stmts.len() - index,
{
    if index >= stmts.len() {
        Ok(Seq::empty())
    } else {
        match check_function(table, stmts.len(), index, stmts[index as int]) {
            Err(e) => Err(e),
            Ok(code) => program_after(
                seq![VerifiedFuncView { label: stmts[index as int].label, code }],
                verify_from(table, stmts, index + 1),
            ),
        }
    }
}

/// Verifies a program: every function verifies, or the program is refused
/// with the error of the first function that does not.
pub open spec fn verify_spec(table: Seq<FuncType>, stmts: Seq<FuncView>) -> Result<
    Seq<VerifiedFuncView>,
    Error,
> {
    verify_from(table, stmts, 0)
}

/// The number of opcodes in all the given functions together.
pub open spec fn opcode_count(stmts: Seq<FuncView>) -> nat
    decreases stmts.len(),
{
    if stmts.len() == 0 {
        0
    } else {
        opcode_count(stmts.drop_last()) + stmts.last().body.len()
    }
}

/// The number of opcodes in all the given verified functions together.
pub open spec fn verified_opcode_count(fs: Seq<VerifiedFuncView>) -> nat
    decreases fs.len(),
{
    if fs.len() == 0 {
        0
    } else {
        verified_opcode_count(fs.drop_last()) + fs.last().code.len()
    }
}

/// An opcode that is accepted leaves an opcode for the machine that is the
/// same opcode, with what the verifier found out about it.
proof fn lemma_step_erases(
    table: Seq<FuncType>,
    count: nat,
    s: StateView,
    op: UnverifiedOpcode,
    pc: nat,
)
    ensures
        step_spec(table, count, s, op, pc) matches Ok((_, vop)) ==> vop.erase() == op,
{
}

/// A body that verifies leaves one opcode for the machine for each of its
/// own, the same opcode in the same place.
proof fn lemma_check_erases(
    table: Seq<FuncType>,
    count: nat,
    s: StateView,
    body: Seq<UnverifiedOpcode>,
    pc: nat,
)
    requires
        pc <= body.len(),
    ensures
        check_from(table, count, s, body, pc) matches Ok(code) ==> erased(code) == body.skip(
            pc as int,
        ),
    decreases body.len() - pc,
{
    if pc < body.len() {
        lemma_step_erases(table, count, s, body[pc as int], pc);
        if let Ok((next, vop)) = step_spec(table, count, s, body[pc as int], pc) {
            lemma_check_erases(table, count, next, body, pc + 1);
            if let Ok(rest) = check_from(table, count, next, body, pc + 1) {
                assert(erased(seq![vop] + rest) =~= seq![vop.erase()] + erased(rest));
                assert(body.skip(pc as int) =~= seq![body[pc as int]] + body.skip(pc as int + 1));
            }
        }
    } else {
        assert(erased(Seq::<VerifiedOpcode>::empty()) =~= body.skip(pc as int));
    }
}

/// Computes `plain_types`.
fn plain_stack(params: &TypeList) -> (ts: Vec<StackType>)
    ensures
        ts@ == plain_types(*params),
{
    let mut ts: Vec<StackType> = Vec::new();
    let mut cur = params;
    assert(ts@ + plain_types(*cur) =~= plain_types(*params));
    loop
        invariant
            ts@ + plain_types(*cur) == plain_types(*params),
        decreases cur,
    {
        match cur {
            TypeList::Nil => {
                assert(ts@ + Seq::<StackType>::empty() =~= ts@);
                return ts;
            },
            TypeList::Cons(t, rest) => {
                assert(ts@ + (seq![StackType::Plain(**t)] + plain_types(**rest)) =~= ts@.push(
                    StackType::Plain(**t),
                ) + plain_types(**rest));
                ts.push(StackType::Plain((**t).clone()));
                cur = &**rest;
            },
        }
    }
}

/// Whether the list is empty.
fn no_params(params: &TypeList) -> (r: bool)
    ensures
        r == (*params == TypeList::Nil),
{
    match params {
        TypeList::Nil => true,
        _ => false,
    }
}

/// Verifies one function of a program: the function with index `index`
/// among `count` functions, whose declared types are in `table`.
pub fn check(table: &Vec<FuncType>, count: usize, index: usize, stmt: &UnverifiedStmt) -> (res:
    Result<VerifiedStmt, Error>)
    ensures
        match res {
            Ok(f) => check_function(table@, count as nat, index as nat, stmt@) == Ok::<_, Error>(
                f@.code,
            ) && f@.label == stmt@.label && erased(f@.code) == stmt@.body,
            Err(e) => check_function(table@, count as nat, index as nat, stmt@) == Err::<
                Seq<VerifiedOpcode>,
                _,
            >(e),
        },
{
    let label = stmt.label();
    let ops = stmt.opcodes();
    if index >= table.len() {
        return Err(Error::VerificationError(label, 0, VerifyErrorKind::UnknownReference));
    }
    if index == 0 && !no_params(&table[0].params) {
        return Err(Error::VerificationError(label, 0, VerifyErrorKind::ArityMismatch));
    }
    let ghost start = entry_state(table@[index as int].params);
    let mut state = State {
        cstack: Vec::new(),
        tstack: plain_stack(&table[index].params),
        env: Vec::new(),
    };
    let mut code: Vec<VerifiedOpcode> = Vec::new();
    let mut pc: usize = 0;
    assert(state@.cstack =~= start.cstack && state@.env =~= start.env);
    while pc < ops.len()
        invariant
            pc <= ops@.len(),
            ops@ == stmt@.body,
            label == stmt@.label,
            index < table@.len(),
            index == 0 ==> table@[0].params == TypeList::Nil,
            start == entry_state(table@[index as int].params),
            check_from(table@, count as nat, start, ops@, 0) == verified_after(
                code@,
                check_from(table@, count as nat, state@, ops@, pc as nat),
            ),
        decreases ops@.len() - pc,
    {
        let ghost before = state@;
        match step(table, count, state, ops[pc], pc) {
            Err(k) => {
                return Err(Error::VerificationError(label, pc, k));
            },
            Ok((next, vop)) => {
                proof {
                    if let Ok(rest) = check_from(table@, count as nat, next@, ops@, (pc + 1) as nat) {
                        assert(code@ + (seq![vop] + rest) =~= code@.push(vop) + rest);
                    }
                }
                state = next;
                code.push(vop);
            },
        }
        pc += 1;
    }
    let halts = pc > 0 && match ops[pc - 1] {
        UnverifiedOpcode::HaltOp(_) => true,
        _ => false,
    };
    if state.tstack.len() != 0 && !halts {
        return Err(Error::VerificationError(label, pc, VerifyErrorKind::ArityMismatch));
    }
    proof {
        assert(code@ + Seq::<VerifiedOpcode>::empty() =~= code@);
        lemma_check_erases(table@, count as nat, start, ops@, 0);
        assert(ops@.skip(0) =~= ops@);
    }
    Ok(VerifiedStmt { label, code })
}

/// A program that has been verified: the declared types of its functions,
/// and the functions. Only `go` makes one.
#[derive(Debug)]
pub struct VerifiedProgram {
    table: Vec<FuncType>,
    functions: Vec<VerifiedStmt>,
}

/// What a verified program is to a specification.
pub struct ProgramView {
    pub table: Seq<FuncType>,
    pub functions: Seq<VerifiedFuncView>,
}

/// Whether every function of the program is what its own opcodes verify to,
/// against the table of the program.
pub open spec fn well_typed(p: ProgramView) -> bool {
    forall|i: int|
        0 <= i < p.functions.len() ==> check_function(
            p.table,
            p.functions.len(),
            i as nat,
            FuncView { label: p.functions[i].label, body: erased(p.functions[i].code) },
        ) == Ok::<_, Error>(#[trigger] p.functions[i].code)
}

impl View for VerifiedProgram {
    type V = ProgramView;

    closed spec fn view(&self) -> ProgramView {
        ProgramView { table: self.table@, functions: verified_view(self.functions@) }
    }
}

impl VerifiedProgram {
    #[verifier::type_invariant]
    spec fn wf(&self) -> bool {
        well_typed(self@)
    }

    /// The functions of the program, in order. They are well typed.
    pub fn functions(&self) -> (fs: &Vec<VerifiedStmt>)
        ensures
            verified_view(fs@) == self@.functions,
            well_typed(self@),
    {
        proof {
            use_type_invariant(self);
        }
        &self.functions
    }

    /// The declared type of each function, by its index.
    pub fn table(&self) -> (t: &Vec<FuncType>)
        ensures
            t@ == self@.table,
    {
        &self.table
    }
}

/// The functions that verify are as many as there were, each with its label
/// and, opcode for opcode, with its own opcodes.
proof fn lemma_verify_from_keeps(table: Seq<FuncType>, stmts: Seq<FuncView>, index: nat)
    requires
        index <= stmts.len(),
    ensures
        verify_from(table, stmts, index) matches Ok(fs) ==> {
            &&& fs.len() == stmts.len() - index
            &&& forall|k: int|
                0 <= k < fs.len() ==> {
                    &&& (#[trigger] fs[k]).label == stmts[index + k].label
                    &&& erased(fs[k].code) == stmts[index + k].body
                    &&& check_function(table, stmts.len(), (index + k) as nat, stmts[index + k])
                        == Ok::<_, Error>(fs[k].code)
                }
        },
    decreases stmts.len() - index,
{
    if index < stmts.len() {
        let f = stmts[index as int];
        if let Ok(code) = check_function(table, stmts.len(), index, f) {
            lemma_check_erases(table, stmts.len(), entry_state(table[index as int].params), f.body, 0);
            assert(f.body.skip(0) =~= f.body);
            lemma_verify_from_keeps(table, stmts, index + 1);
            if let Ok(rest) = verify_from(table, stmts, index + 1) {
                let first = VerifiedFuncView { label: f.label, code };
                let fs = seq![first] + rest;
                assert forall|k: int| 0 <= k < fs.len() implies {
                    &&& (#[trigger] fs[k]).label == stmts[index + k].label
                    &&& erased(fs[k].code) == stmts[index + k].body
                    &&& check_function(table, stmts.len(), (index + k) as nat, stmts[index + k])
                        == Ok::<_, Error>(fs[k].code)
                } by {
                    if k > 0 {
                        assert(fs[k] == rest[k - 1]);
                    }
                }
            }
        }
    }
}

/// Functions that agree in number and, place for place, in the number of
/// their opcodes hold the same number of opcodes together.
proof fn lemma_same_opcode_count(fs: Seq<VerifiedFuncView>, stmts: Seq<FuncView>)
    requires
        fs.len() == stmts.len(),
        forall|k: int| 0 <= k < fs.len() ==> (#[trigger] fs[k]).code.len() == stmts[k].body.len(),
    ensures
        verified_opcode_count(fs) == opcode_count(stmts),
    decreases fs.len(),
{
    if fs.len() > 0 {
        assert(fs.last() == fs[fs.len() - 1]);
        assert forall|k: int| 0 <= k < fs.drop_last().len() implies (#[trigger] fs.drop_last()[k]).code.len()
            == stmts.drop_last()[k].body.len() by {
            assert(fs.drop_last()[k] == fs[k]);
        }
        lemma_same_opcode_count(fs.drop_last(), stmts.drop_last());
    }
}

/// A program that verifies keeps its shape: it has as many functions as
/// before, each with the label it had and with as many opcodes, and so it
/// has as many opcodes in all. Each opcode is the one it was, with what the
/// verifier found out about it.
pub proof fn lemma_verify_keeps_shape(table: Seq<FuncType>, stmts: Seq<FuncView>)
    ensures
        verify_spec(table, stmts) matches Ok(fs) ==> {
            &&& fs.len() == stmts.len()
            &&& verified_opcode_count(fs) == opcode_count(stmts)
            &&& forall|k: int|
                0 <= k < fs.len() ==> {
                    &&& (#[trigger] fs[k]).label == stmts[k].label
                    &&& fs[k].code.len() == stmts[k].body.len()
                    &&& erased(fs[k].code) == stmts[k].body
                }
            &&& well_typed(ProgramView { table, functions: fs })
        },
{
    lemma_verify_from_keeps(table, stmts, 0);
    if let Ok(fs) = verify_spec(table, stmts) {
        assert forall|k: int| 0 <= k < fs.len() implies {
            &&& (#[trigger] fs[k]).label == stmts[k].label
            &&& fs[k].code.len() == stmts[k].body.len()
            &&& erased(fs[k].code) == stmts[k].body
            &&& check_function(
                table,
                fs.len(),
                k as nat,
                FuncView { label: fs[k].label, body: erased(fs[k].code) },
            ) == Ok::<_, Error>(fs[k].code)
        } by {
            assert(erased(fs[k].code).len() == fs[k].code.len());
            assert(FuncView { label: fs[k].label, body: erased(fs[k].code) } == stmts[0 + k]);
        }
        lemma_same_opcode_count(fs, stmts);
    }
}

/// Verifies a program.
///
/// `types` holds the declared type of each function, by its index in
/// `stmts`. Every function is verified in order; the first one that does not
/// verify ends the verification with its error, and no program results. A
/// program that results has the functions that were given, opcode for opcode.
pub fn go(types: Vec<FuncType>, stmts: ParsedStmts) -> (res: Result<VerifiedProgram, Error>)
    ensures
        match res {
            Ok(p) => {
                &&& verify_spec(types@, stmts_view(stmts@)) == Ok::<_, Error>(p@.functions)
                &&& p@.table == types@
                &&& well_typed(p@)
                &&& p@.functions.len() == stmts@.len()
                &&& verified_opcode_count(p@.functions) == opcode_count(stmts_view(stmts@))
            },
            Err(e) => verify_spec(types@, stmts_view(stmts@)) == Err::<Seq<VerifiedFuncView>, _>(e),
        },
{
    let count = stmts.len();
    let mut functions: Vec<VerifiedStmt> = Vec::new();
    let mut index: usize = 0;
    let ghost sv = stmts_view(stmts@);
    assert(verified_view(functions@) + verify_from(types@, sv, 0)->Ok_0 =~= verify_from(
        types@,
        sv,
        0,
    )->Ok_0);
    while index < count
        invariant
            index <= count,
            count == stmts@.len(),
            sv == stmts_view(stmts@),
            verify_spec(types@, sv) == program_after(
                verified_view(functions@),
                verify_from(types@, sv, index as nat),
            ),
        decreases count - index,
    {
        match check(&types, count, index, &stmts[index]) {
            Err(e) => {
                return Err(e);
            },
            Ok(f) => {
                proof {
                    let first = VerifiedFuncView { label: sv[index as int].label, code: f@.code };
                    assert(first == f@);
                    assert(verified_view(functions@.push(f)) =~= verified_view(functions@).push(
                        first,
                    ));
                    if let Ok(rest) = verify_from(types@, sv, (index + 1) as nat) {
                        assert(verified_view(functions@) + (seq![first] + rest) =~= verified_view(
                            functions@,
                        ).push(first) + rest);
                    }
                }
                functions.push(f);
            },
        }
        index += 1;
    }
    proof {
        assert(verified_view(functions@) + Seq::<VerifiedFuncView>::empty() =~= verified_view(
            functions@,
        ));
        lemma_verify_keeps_shape(types@, sv);
    }
    Ok(VerifiedProgram { table: types, functions })
}

} // verus!
