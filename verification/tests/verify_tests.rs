use svm::header::Error::VerificationError;
use svm::header::UnverifiedOpcode;
use svm::header::UnverifiedOpcode::{
    AllOp, ArrOp, BothOp, CTGetOp, CTPopOp, CallOp, CapLEOp, CapOp, EmosOp, EndFunctionOp,
    ForallOp, FreeRgnOp, FuncOp, GetOp, GlobalFuncOp, HaltOp, HandleOp, HeapOp, I32Op, InitOp,
    LitOp, LlarofOp, MallocOp, MutOp, NewRgnOp, PackOp, PrintOp, ProjOp, PtrOp, RWOp, RegionOp,
    ReprsOp, ReqOp, RgnPolyOp, SomeOp, TupleOp, UniqueOp, UnpackOp, Word32Op, Word64Op, YlopNgrOp,
};
use svm::header::UnverifiedStmt;
use svm::header::VerifyErrorKind;
use svm::header::VerifyErrorKind::{
    ArityMismatch, CapabilityLinearity, NoRule, RegionEscape, ScopeMismatch, StackUnderflow,
    TypeMismatch, UnknownReference,
};
use svm::types::{
    CapState, Capability, Entry, EntryList, FieldList, FuncType, Quantifier, Region, Rights, Shape,
    StackType, Type, TypeList,
};
use svm::verify;
use svm::verify::{State, VerifiedOpcode};

fn no_cap() -> Capability {
    Capability {
        region: Region::Local(0),
        rights: Rights::Handle,
    }
}

fn takes(params: Vec<Type>) -> FuncType {
    FuncType {
        params: TypeList::from_vec(params),
        requirement: no_cap(),
    }
}

fn empty_state() -> State {
    State {
        cstack: vec![],
        tstack: vec![],
        env: vec![],
    }
}

/// Verifies one function that takes nothing, against a table that holds its
/// own type and the type of a second function that takes an integer.
fn check_body(body: Vec<UnverifiedOpcode>) -> Result<Vec<VerifiedOpcode>, (usize, VerifyErrorKind)> {
    let table = vec![takes(vec![]), takes(vec![Type::I32])];
    let stmts = vec![
        UnverifiedStmt::Func(0, body),
        UnverifiedStmt::Func(100, vec![PrintOp, HaltOp(0)]),
    ];
    match verify::go(table, stmts) {
        Ok(program) => Ok(program.functions()[0].code.clone()),
        Err(VerificationError(label, offset, kind)) => {
            assert_eq!(label, 0);
            Err((offset, kind))
        }
        Err(other) => panic!("{:?}", other),
    }
}

fn refused(body: Vec<UnverifiedOpcode>) -> (usize, VerifyErrorKind) {
    check_body(body).unwrap_err()
}

/// The opcodes that allocate a tuple of two integers in a new region with a
/// shared capability, and initialise both fields.
fn region_with_pair() -> Vec<UnverifiedOpcode> {
    vec![
        NewRgnOp,
        I32Op,
        I32Op,
        TupleOp(2),
        CTGetOp(2),
        RWOp,
        MallocOp,
        LitOp(7),
        InitOp(0),
        LitOp(9),
        InitOp(1),
    ]
}

#[test]
fn verify_accepts_a_program_that_prints_and_halts() {
    let code = check_body(vec![LitOp(42), PrintOp, HaltOp(3)]).unwrap();
    assert_eq!(
        code,
        vec![
            VerifiedOpcode::Lit(42),
            VerifiedOpcode::Print,
            VerifiedOpcode::Halt(3)
        ]
    );
}

#[test]
fn verify_annotates_the_opcodes_of_a_region_program() {
    let mut body = region_with_pair();
    body.extend(vec![GetOp(0), ProjOp(1), PrintOp, FreeRgnOp, HaltOp(0)]);
    let code = check_body(body.clone()).unwrap();
    assert_eq!(code.len(), body.len());
    assert_eq!(code[0], VerifiedOpcode::NewRgn);
    assert_eq!(code[1], VerifiedOpcode::Static(I32Op));
    assert_eq!(code[3], VerifiedOpcode::Static(TupleOp(2)));
    assert_eq!(code[4], VerifiedOpcode::Static(CTGetOp(2)));
    assert_eq!(code[5], VerifiedOpcode::Static(RWOp));
    assert_eq!(
        code[6],
        VerifiedOpcode::Malloc {
            region: 0,
            arity: 2
        }
    );
    assert_eq!(code[8], VerifiedOpcode::Init(0));
    assert_eq!(code[11], VerifiedOpcode::Get(0));
    assert_eq!(code[12], VerifiedOpcode::Proj(1));
    assert_eq!(code[14], VerifiedOpcode::FreeRgn { region: 0 });
}

#[test]
fn verify_keeps_the_count_of_functions_and_opcodes() {
    let table = vec![takes(vec![]), takes(vec![Type::I32]), takes(vec![])];
    let bodies = vec![
        vec![LitOp(1), GlobalFuncOp(1), NewRgnOp, HaltOp(0)],
        vec![PrintOp, HaltOp(1)],
        vec![],
    ];
    let stmts: Vec<UnverifiedStmt> = vec![
        UnverifiedStmt::Func(0, bodies[0].clone()),
        UnverifiedStmt::Func(5, bodies[1].clone()),
        UnverifiedStmt::Func(8, bodies[2].clone()),
    ];
    let program = verify::go(table, stmts).unwrap();
    let functions = program.functions();
    assert_eq!(functions.len(), 3);
    assert_eq!(functions[0].label, 0);
    assert_eq!(functions[1].label, 5);
    assert_eq!(functions[2].label, 8);
    let total: usize = functions.iter().map(|f| f.code.len()).sum();
    assert_eq!(total, 6);
    for (f, body) in functions.iter().zip(bodies.iter()) {
        assert_eq!(f.code.len(), body.len());
    }
    assert_eq!(program.table().len(), 3);
}

#[test]
fn verify_of_no_functions_is_an_empty_program() {
    let program = verify::go(vec![], vec![]).unwrap();
    assert!(program.functions().is_empty());
}

#[test]
fn verify_refuses_a_second_allocation_with_one_unique_capability() {
    let body = vec![
        NewRgnOp,
        I32Op,
        TupleOp(1),
        CTGetOp(1),
        MallocOp,
        I32Op,
        TupleOp(1),
        CTGetOp(1),
        MallocOp,
        HaltOp(0),
    ];
    assert_eq!(refused(body), (8, CapabilityLinearity));
}

#[test]
fn verify_accepts_two_allocations_with_a_shared_capability() {
    let body = vec![
        NewRgnOp,
        I32Op,
        TupleOp(1),
        CTGetOp(2),
        RWOp,
        MallocOp,
        I32Op,
        TupleOp(1),
        CTGetOp(2),
        RWOp,
        MallocOp,
        HaltOp(0),
    ];
    let code = check_body(body).unwrap();
    assert_eq!(
        code[10],
        VerifiedOpcode::Malloc {
            region: 0,
            arity: 1
        }
    );
}

#[test]
fn verify_refuses_the_use_of_a_spent_capability_for_anything() {
    // The unique capability is used up by the allocation, so the region can
    // neither be written to nor freed afterwards.
    let spend = vec![NewRgnOp, I32Op, TupleOp(1), CTGetOp(1), MallocOp];
    let mut write = spend.clone();
    write.extend(vec![LitOp(1), InitOp(0), HaltOp(0)]);
    assert_eq!(refused(write), (6, CapabilityLinearity));
    let mut free = spend.clone();
    free.extend(vec![FreeRgnOp, HaltOp(0)]);
    assert_eq!(refused(free), (5, CapabilityLinearity));
}

#[test]
fn verify_refuses_the_use_of_a_freed_region() {
    let mut body = region_with_pair();
    body.extend(vec![FreeRgnOp, ProjOp(0), HaltOp(0)]);
    assert_eq!(refused(body), (12, RegionEscape));

    let mut body = region_with_pair();
    body.extend(vec![CTGetOp(0), FreeRgnOp, FreeRgnOp, HaltOp(0)]);
    assert_eq!(refused(body), (13, RegionEscape));

    let mut body = region_with_pair();
    body.extend(vec![
        CTGetOp(1),
        RWOp,
        CTGetOp(1),
        FreeRgnOp,
        I32Op,
        TupleOp(1),
        CTGetOp(1),
        MallocOp,
        HaltOp(0),
    ]);
    assert_eq!(refused(body), (17, RegionEscape));
}

#[test]
fn verify_refuses_every_use_of_what_names_a_freed_region() {
    let freed = |rest: Vec<UnverifiedOpcode>| {
        let mut body = region_with_pair();
        body.push(FreeRgnOp);
        body.extend(rest);
        body.push(HaltOp(0));
        refused(body)
    };
    // The pointer and the handle are on the value stack, the token of the
    // region is on the constructor stack.
    assert_eq!(freed(vec![PrintOp]), (12, RegionEscape));
    assert_eq!(freed(vec![GetOp(0)]), (12, RegionEscape));
    assert_eq!(freed(vec![GetOp(1)]), (12, RegionEscape));
    assert_eq!(freed(vec![LitOp(1), InitOp(0)]), (13, RegionEscape));
    assert_eq!(freed(vec![CTGetOp(0)]), (12, RegionEscape));
    assert_eq!(freed(vec![RWOp]), (12, RegionEscape));
    assert_eq!(freed(vec![UniqueOp]), (12, RegionEscape));
    assert_eq!(freed(vec![HandleOp]), (12, RegionEscape));
    assert_eq!(freed(vec![I32Op, EmosOp]), (13, RegionEscape));
    // What names the region can be dropped, and what does not name it is
    // as it was.
    assert_eq!(freed(vec![CTPopOp, CTPopOp]), (13, StackUnderflow));
    assert!(check_body({
        let mut body = region_with_pair();
        body.extend(vec![FreeRgnOp, CTPopOp, LitOp(3), PrintOp, GetOp(0), HaltOp(0)]);
        body
    })
    .is_ok());
    assert!(check_body({
        let mut body = region_with_pair();
        body.extend(vec![FreeRgnOp, SomeOp, I32Op, EmosOp, HaltOp(0)]);
        body
    })
    .is_ok());
}

#[test]
fn verify_refuses_a_function_type_that_requires_a_freed_region() {
    // The type of every function of the table requires a capability for the
    // first region of the caller.
    let body = vec![NewRgnOp, GlobalFuncOp(0), FreeRgnOp, GetOp(0), HaltOp(0)];
    assert_eq!(refused(body), (3, RegionEscape));
    let body = vec![NewRgnOp, FreeRgnOp, GlobalFuncOp(0), CallOp, HaltOp(0)];
    assert_eq!(refused(body), (3, RegionEscape));
    let body = vec![NewRgnOp, GlobalFuncOp(0), GetOp(0), HaltOp(0)];
    assert!(check_body(body).is_ok());
}

#[test]
fn verify_refuses_a_capability_that_was_never_held() {
    // The heap and a declared region have no capability that a function holds.
    let body = vec![I32Op, TupleOp(1), HeapOp, RWOp, MallocOp, HaltOp(0)];
    assert_eq!(refused(body), (4, CapabilityLinearity));
    let body = vec![I32Op, TupleOp(1), RegionOp, UniqueOp, MallocOp, HaltOp(0)];
    assert_eq!(refused(body), (4, CapabilityLinearity));
}

#[test]
fn verify_refuses_an_empty_stack() {
    assert_eq!(refused(vec![PrintOp]), (0, StackUnderflow));
    assert_eq!(refused(vec![CTPopOp]), (0, StackUnderflow));
    assert_eq!(refused(vec![CTGetOp(0)]), (0, StackUnderflow));
    assert_eq!(refused(vec![I32Op, CTGetOp(1)]), (1, StackUnderflow));
    assert_eq!(refused(vec![LitOp(1), GetOp(1)]), (1, StackUnderflow));
    assert_eq!(refused(vec![UniqueOp]), (0, StackUnderflow));
    assert_eq!(refused(vec![I32Op, TupleOp(2)]), (1, StackUnderflow));
    assert_eq!(refused(vec![MallocOp]), (0, StackUnderflow));
    assert_eq!(refused(vec![LitOp(1), InitOp(0)]), (1, StackUnderflow));
    assert_eq!(refused(vec![ProjOp(0)]), (0, StackUnderflow));
    assert_eq!(refused(vec![CallOp]), (0, StackUnderflow));
    assert_eq!(refused(vec![FreeRgnOp]), (0, StackUnderflow));
    assert_eq!(refused(vec![PackOp]), (0, StackUnderflow));
    assert_eq!(refused(vec![UnpackOp]), (0, StackUnderflow));
}

#[test]
fn verify_reports_the_shape_that_was_expected_and_the_shape_that_was_found() {
    assert_eq!(
        refused(vec![I32Op, UniqueOp]),
        (1, TypeMismatch(Shape::Region, Shape::I32))
    );
    assert_eq!(
        refused(vec![HeapOp, TupleOp(1)]),
        (1, TypeMismatch(Shape::Type, Shape::Region))
    );
    assert_eq!(
        refused(vec![SomeOp, ArrOp]),
        (1, TypeMismatch(Shape::Type, Shape::Marker))
    );
    assert_eq!(
        refused(vec![Word64Op, BothOp]),
        (1, TypeMismatch(Shape::HandleCap, Shape::Word64))
    );
    assert_eq!(
        refused(vec![HeapOp, RWOp, RegionOp, UniqueOp, BothOp]),
        (4, TypeMismatch(Shape::Region, Shape::Region))
    );
    assert_eq!(
        refused(vec![LitOp(1), ProjOp(0)]),
        (1, TypeMismatch(Shape::TuplePtr, Shape::I32))
    );
    assert_eq!(
        refused(vec![LitOp(1), CallOp]),
        (1, TypeMismatch(Shape::Func, Shape::I32))
    );
    assert_eq!(
        refused(vec![NewRgnOp, LitOp(1), InitOp(0)]),
        (2, TypeMismatch(Shape::UninitTuplePtr, Shape::Handle))
    );
    // A handle capability grants no access, and a shared one does not free.
    assert_eq!(
        refused(vec![NewRgnOp, I32Op, TupleOp(1), CTGetOp(2), HandleOp, MallocOp]),
        (5, TypeMismatch(Shape::ReadWriteCap, Shape::HandleCap))
    );
    assert_eq!(
        refused(vec![NewRgnOp, CTGetOp(1), RWOp, FreeRgnOp]),
        (3, TypeMismatch(Shape::UniqueCap, Shape::ReadWriteCap))
    );
    assert_eq!(
        refused(vec![NewRgnOp, PtrOp, CTGetOp(1), MallocOp]),
        (3, TypeMismatch(Shape::Tuple, Shape::Ptr))
    );
}

#[test]
fn verify_checks_the_type_of_an_initialised_field() {
    // The field is an integer, the value is a function.
    let body = vec![
        NewRgnOp,
        I32Op,
        TupleOp(1),
        CTGetOp(2),
        RWOp,
        MallocOp,
        GlobalFuncOp(1),
        InitOp(0),
        HaltOp(0),
    ];
    assert_eq!(refused(body), (7, TypeMismatch(Shape::I32, Shape::Func)));
}

#[test]
fn verify_refuses_the_projection_of_a_tuple_that_is_not_initialised() {
    let body = vec![
        NewRgnOp,
        I32Op,
        I32Op,
        TupleOp(2),
        CTGetOp(2),
        RWOp,
        MallocOp,
        LitOp(7),
        InitOp(0),
        ProjOp(0),
        HaltOp(0),
    ];
    assert_eq!(
        refused(body),
        (9, TypeMismatch(Shape::TuplePtr, Shape::UninitTuplePtr))
    );
}

#[test]
fn verify_refuses_the_initialisation_of_a_tuple_that_is_complete() {
    let mut body = region_with_pair();
    body.extend(vec![LitOp(1), InitOp(0), HaltOp(0)]);
    assert_eq!(
        refused(body),
        (12, TypeMismatch(Shape::UninitTuplePtr, Shape::TuplePtr))
    );
}

#[test]
fn verify_refuses_a_count_that_is_off() {
    let mut body = region_with_pair();
    body.extend(vec![ProjOp(2), HaltOp(0)]);
    assert_eq!(refused(body), (11, ArityMismatch));

    let body = vec![
        NewRgnOp,
        I32Op,
        TupleOp(1),
        CTGetOp(2),
        RWOp,
        MallocOp,
        LitOp(7),
        InitOp(1),
        HaltOp(0),
    ];
    assert_eq!(refused(body), (7, ArityMismatch));

    // The callee takes one argument and finds none.
    assert_eq!(refused(vec![GlobalFuncOp(1), CallOp]), (1, ArityMismatch));
}

#[test]
fn verify_refuses_values_left_over_at_the_end_of_a_function_that_returns() {
    assert_eq!(refused(vec![LitOp(1)]), (1, ArityMismatch));
    assert_eq!(refused(vec![LitOp(1), PrintOp]), (2, ArityMismatch));
    assert_eq!(refused(vec![HaltOp(0), LitOp(1)]), (2, ArityMismatch));
    assert!(check_body(vec![LitOp(1), HaltOp(0)]).is_ok());
    assert!(check_body(vec![]).is_ok());
    assert!(check_body(vec![I32Op, Word32Op]).is_ok());
}

#[test]
fn verify_refuses_a_reference_to_a_function_that_is_not_there() {
    assert_eq!(refused(vec![GlobalFuncOp(2), HaltOp(0)]), (0, UnknownReference));
    assert_eq!(
        refused(vec![LitOp(0), GlobalFuncOp(u32::MAX), HaltOp(0)]),
        (1, UnknownReference)
    );
    assert!(check_body(vec![GlobalFuncOp(0), GlobalFuncOp(1), HaltOp(0)]).is_ok());
}

#[test]
fn verify_refuses_a_reference_to_a_type_without_a_function() {
    // The table is longer than the program.
    let table = vec![takes(vec![]), takes(vec![])];
    let stmts = vec![UnverifiedStmt::Func(0, vec![GlobalFuncOp(1), HaltOp(0)])];
    assert_eq!(
        verify::go(table, stmts).unwrap_err(),
        VerificationError(0, 0, UnknownReference)
    );
}

#[test]
fn verify_refuses_a_function_without_a_declared_type() {
    let table = vec![takes(vec![])];
    let stmts = vec![
        UnverifiedStmt::Func(0, vec![HaltOp(0)]),
        UnverifiedStmt::Func(2, vec![HaltOp(0)]),
    ];
    assert_eq!(
        verify::go(table, stmts).unwrap_err(),
        VerificationError(2, 0, UnknownReference)
    );
}

#[test]
fn verify_refuses_a_first_function_that_takes_arguments() {
    let table = vec![takes(vec![Type::I32])];
    let stmts = vec![UnverifiedStmt::Func(0, vec![HaltOp(0)])];
    assert_eq!(
        verify::go(table, stmts).unwrap_err(),
        VerificationError(0, 0, ArityMismatch)
    );
}

#[test]
fn verify_reports_the_first_function_that_fails() {
    let table = vec![takes(vec![]), takes(vec![]), takes(vec![])];
    let stmts = vec![
        UnverifiedStmt::Func(0, vec![HaltOp(0)]),
        UnverifiedStmt::Func(2, vec![I32Op, PrintOp]),
        UnverifiedStmt::Func(5, vec![CTPopOp]),
    ];
    assert_eq!(
        verify::go(table, stmts).unwrap_err(),
        VerificationError(2, 1, StackUnderflow)
    );
}

#[test]
fn verify_refuses_a_scope_that_does_not_nest() {
    assert_eq!(refused(vec![EmosOp]), (0, ScopeMismatch));
    assert_eq!(refused(vec![I32Op, LlarofOp]), (1, ScopeMismatch));
    assert_eq!(refused(vec![SomeOp, LlarofOp]), (1, ScopeMismatch));
    assert_eq!(refused(vec![ForallOp, YlopNgrOp]), (1, ScopeMismatch));
    assert_eq!(refused(vec![RgnPolyOp, I32Op, EmosOp]), (2, ScopeMismatch));
    // The inner scope is still open.
    assert_eq!(refused(vec![SomeOp, ForallOp, I32Op, EmosOp]), (3, ScopeMismatch));
    // No opcode closes the scope that `AllOp` opens.
    assert_eq!(refused(vec![AllOp, I32Op, EmosOp]), (2, ScopeMismatch));
    assert_eq!(refused(vec![AllOp, I32Op, LlarofOp]), (2, ScopeMismatch));
    assert_eq!(refused(vec![AllOp, I32Op, YlopNgrOp]), (2, ScopeMismatch));
    assert!(check_body(vec![SomeOp, ForallOp, I32Op, LlarofOp, EmosOp]).is_ok());
    assert!(check_body(vec![RgnPolyOp, RegionOp, HandleOp, YlopNgrOp]).is_ok());
}

#[test]
fn verify_has_no_rule_for_some_opcodes() {
    for op in [ReqOp, CapOp, CapLEOp, MutOp, ReprsOp(0), EndFunctionOp] {
        assert_eq!(refused(vec![LitOp(1), op, HaltOp(0)]), (1, NoRule));
    }
}

#[test]
fn step_builds_types_in_postfix_order() {
    let table = vec![];
    let mut state = empty_state();
    let ops = vec![
        I32Op,
        Word32Op,
        Word64Op,
        TupleOp(2),
        PtrOp,
        ArrOp,
        HeapOp,
        HandleOp,
        FuncOp(3),
    ];
    for (pc, op) in ops.into_iter().enumerate() {
        let (next, vop) = verify::step(&table, 0, state, op, pc).unwrap();
        assert_eq!(vop, VerifiedOpcode::Static(op));
        state = next;
    }
    let expected = Type::Func(Box::new(FuncType {
        params: TypeList::from_vec(vec![
            Type::I32,
            Type::Tuple(TypeList::from_vec(vec![Type::Word32, Type::Word64])),
            Type::Array(Box::new(Type::Ptr)),
        ]),
        requirement: Capability {
            region: Region::Heap,
            rights: Rights::Handle,
        },
    }));
    assert_eq!(state.cstack, vec![Entry::Type(expected)]);
    assert!(state.tstack.is_empty());
    assert!(state.env.is_empty());
}

#[test]
fn step_copies_and_drops_entries_of_the_constructor_stack() {
    let table = vec![];
    let state = State {
        cstack: vec![
            Entry::Type(Type::I32),
            Entry::Region(Region::Heap),
            Entry::Type(Type::Ptr),
        ],
        tstack: vec![StackType::Plain(Type::I32)],
        env: vec![],
    };
    let (state, _) = verify::step(&table, 0, state, CTGetOp(0), 0).unwrap();
    assert_eq!(state.cstack.len(), 4);
    assert_eq!(state.cstack[3], Entry::Type(Type::Ptr));
    let (state, _) = verify::step(&table, 0, state, CTGetOp(3), 1).unwrap();
    assert_eq!(state.cstack[4], Entry::Type(Type::I32));
    let (state, _) = verify::step(&table, 0, state, CTGetOp(3), 2).unwrap();
    assert_eq!(state.cstack[5], Entry::Region(Region::Heap));
    let (state, _) = verify::step(&table, 0, state, CTPopOp, 3).unwrap();
    let (state, _) = verify::step(&table, 0, state, CTPopOp, 4).unwrap();
    assert_eq!(
        state.cstack,
        vec![
            Entry::Type(Type::I32),
            Entry::Region(Region::Heap),
            Entry::Type(Type::Ptr),
            Entry::Type(Type::Ptr),
        ]
    );
    assert_eq!(state.tstack, vec![StackType::Plain(Type::I32)]);
}

#[test]
fn step_names_a_declared_region_by_its_offset() {
    let (state, _) = verify::step(&vec![], 0, empty_state(), RegionOp, 17).unwrap();
    assert_eq!(state.cstack, vec![Entry::Region(Region::Declared(17))]);
}

#[test]
fn step_builds_capabilities() {
    let table = vec![];
    let mut state = empty_state();
    for (pc, op) in [HeapOp, UniqueOp, HeapOp, RWOp, BothOp].into_iter().enumerate() {
        state = verify::step(&table, 0, state, op, pc).unwrap().0;
    }
    let both = Rights::Both(Box::new(Rights::Unique), Box::new(Rights::ReadWrite));
    assert_eq!(both.strength(), 2);
    assert_eq!(
        Rights::Both(Box::new(Rights::Handle), Box::new(Rights::ReadWrite)).strength(),
        1
    );
    assert_eq!(
        state.cstack,
        vec![Entry::Cap(Capability {
            region: Region::Heap,
            rights: both
        })]
    );
}

#[test]
fn step_closes_a_scope_into_one_quantified_type() {
    let table = vec![];
    let mut state = empty_state();
    for (pc, op) in [Word32Op, SomeOp, HeapOp, I32Op, EmosOp].into_iter().enumerate() {
        state = verify::step(&table, 0, state, op, pc).unwrap().0;
    }
    let body = EntryList::Cons(
        Box::new(Entry::Region(Region::Heap)),
        Box::new(EntryList::Cons(
            Box::new(Entry::Type(Type::I32)),
            Box::new(EntryList::Nil),
        )),
    );
    assert_eq!(
        state.cstack,
        vec![
            Entry::Type(Type::Word32),
            Entry::Type(Type::Quantified(Quantifier::Exists, body)),
        ]
    );
}

#[test]
fn step_makes_a_region_with_its_capability_and_its_handle() {
    let table = vec![];
    let (state, vop) = verify::step(&table, 0, empty_state(), NewRgnOp, 0).unwrap();
    assert_eq!(vop, VerifiedOpcode::NewRgn);
    let (state, _) = verify::step(&table, 0, state, NewRgnOp, 1).unwrap();
    assert_eq!(state.env, vec![CapState::Held, CapState::Held]);
    assert_eq!(
        state.tstack,
        vec![StackType::Handle(0), StackType::Handle(1)]
    );
    assert_eq!(
        state.cstack[2..],
        [
            Entry::Region(Region::Local(1)),
            Entry::Cap(Capability {
                region: Region::Local(1),
                rights: Rights::Unique
            }),
        ]
    );
}

#[test]
fn step_tracks_the_fields_of_an_allocated_tuple() {
    let table = vec![];
    let mut state = empty_state();
    let ops = region_with_pair();
    let mut seen = vec![];
    for (pc, op) in ops.into_iter().enumerate() {
        state = verify::step(&table, 0, state, op, pc).unwrap().0;
        seen.push(state.tstack.last().unwrap().clone());
    }
    let fields = |first: bool, second: bool| {
        StackType::TuplePtr(
            0,
            FieldList::Cons(
                Box::new(Type::I32),
                first,
                Box::new(FieldList::Cons(
                    Box::new(Type::I32),
                    second,
                    Box::new(FieldList::Nil),
                )),
            ),
        )
    };
    assert_eq!(seen[6], fields(false, false));
    assert_eq!(seen[8], fields(true, false));
    assert_eq!(seen[10], fields(true, true));
    assert_eq!(seen[6].shape_of(), Shape::UninitTuplePtr);
    assert_eq!(seen[10].shape_of(), Shape::TuplePtr);
    assert_eq!(state.env, vec![CapState::Held]);
    assert_eq!(state.tstack.len(), 2);
}

#[test]
fn step_marks_a_freed_region_and_a_spent_capability() {
    let table = vec![];
    let (state, _) = verify::step(&table, 0, empty_state(), NewRgnOp, 0).unwrap();
    let (state, vop) = verify::step(&table, 0, state, FreeRgnOp, 1).unwrap();
    assert_eq!(vop, VerifiedOpcode::FreeRgn { region: 0 });
    assert_eq!(state.env, vec![CapState::Freed]);
    assert_eq!(state.cstack, vec![Entry::Region(Region::Local(0))]);

    let mut state = empty_state();
    for (pc, op) in [NewRgnOp, I32Op, TupleOp(1), CTGetOp(1), MallocOp]
        .into_iter()
        .enumerate()
    {
        state = verify::step(&table, 0, state, op, pc).unwrap().0;
    }
    assert_eq!(state.env, vec![CapState::Consumed]);
}

#[test]
fn step_checks_a_call_against_the_type_of_the_callee() {
    let callee = FuncType {
        params: TypeList::from_vec(vec![Type::I32, Type::I32]),
        requirement: Capability {
            region: Region::Local(0),
            rights: Rights::ReadWrite,
        },
    };
    let table = vec![callee.clone(), callee.clone()];
    let prepare = |cap: UnverifiedOpcode, args: Vec<UnverifiedOpcode>| {
        let mut state = empty_state();
        let mut ops = vec![NewRgnOp, CTGetOp(1), cap];
        ops.extend(args);
        ops.push(GlobalFuncOp(1));
        for (pc, op) in ops.into_iter().enumerate() {
            state = verify::step(&table, 2, state, op, pc).unwrap().0;
        }
        state
    };
    let (state, vop) =
        verify::step(&table, 2, prepare(RWOp, vec![LitOp(1), LitOp(2)]), CallOp, 9).unwrap();
    assert_eq!(vop, VerifiedOpcode::Call { argc: 2 });
    assert_eq!(state.tstack, vec![StackType::Handle(0)]);
    assert_eq!(state.env, vec![CapState::Held]);
    assert_eq!(state.cstack.len(), 2);

    // A unique capability satisfies the requirement, and is used up.
    let (state, _) =
        verify::step(&table, 2, prepare(UniqueOp, vec![LitOp(1), LitOp(2)]), CallOp, 9).unwrap();
    assert_eq!(state.env, vec![CapState::Consumed]);

    // A handle capability is too weak.
    assert_eq!(
        verify::step(&table, 2, prepare(HandleOp, vec![LitOp(1), LitOp(2)]), CallOp, 9)
            .unwrap_err(),
        TypeMismatch(Shape::ReadWriteCap, Shape::HandleCap)
    );
    // One argument is a function.
    assert_eq!(
        verify::step(
            &table,
            2,
            prepare(RWOp, vec![GlobalFuncOp(0), LitOp(2)]),
            CallOp,
            9
        )
        .unwrap_err(),
        TypeMismatch(Shape::I32, Shape::Func)
    );
    // The handle of the region is no integer.
    assert_eq!(
        verify::step(&table, 2, prepare(RWOp, vec![LitOp(2)]), CallOp, 9).unwrap_err(),
        TypeMismatch(Shape::I32, Shape::Handle)
    );
}

#[test]
fn step_packs_and_unpacks_an_existential_type() {
    let table = vec![];
    let mut state = empty_state();
    let mut types = vec![];
    for (pc, op) in [SomeOp, HeapOp, I32Op, EmosOp, LitOp(5), PackOp, UnpackOp]
        .into_iter()
        .enumerate()
    {
        state = verify::step(&table, 0, state, op, pc).unwrap().0;
        types.push(state.tstack.last().cloned());
    }
    assert_eq!(types[4], Some(StackType::Plain(Type::I32)));
    assert_eq!(types[5].as_ref().unwrap().shape_of(), Shape::Quantified);
    assert_eq!(types[6], Some(StackType::Plain(Type::I32)));
    assert!(state.cstack.is_empty());

    assert_eq!(
        refused(vec![SomeOp, Word32Op, EmosOp, LitOp(5), PackOp]),
        (4, TypeMismatch(Shape::Word32, Shape::I32))
    );
    assert_eq!(
        refused(vec![ForallOp, I32Op, LlarofOp, LitOp(5), PackOp]),
        (4, TypeMismatch(Shape::Quantified, Shape::Quantified))
    );
    assert_eq!(
        refused(vec![SomeOp, HeapOp, EmosOp, LitOp(5), PackOp]),
        (4, TypeMismatch(Shape::Type, Shape::Quantified))
    );
    assert_eq!(
        refused(vec![LitOp(5), UnpackOp]),
        (1, TypeMismatch(Shape::Quantified, Shape::I32))
    );
}

#[test]
fn types_are_equal_when_they_are_built_alike() {
    let pair = || Type::Tuple(TypeList::from_vec(vec![Type::I32, Type::Word32]));
    assert!(pair().same(&pair()));
    assert!(pair().clone().same(&pair()));
    assert!(!pair().same(&Type::Tuple(TypeList::from_vec(vec![Type::I32]))));
    assert!(!pair().same(&Type::Tuple(TypeList::from_vec(vec![
        Type::Word32,
        Type::I32
    ]))));
    assert!(!Type::Array(Box::new(Type::I32)).same(&Type::Array(Box::new(Type::Ptr))));
    assert!(takes(vec![pair()]).same(&takes(vec![pair()])));
    assert!(!takes(vec![pair()]).same(&takes(vec![])));
    assert_eq!(TypeList::from_vec(vec![Type::I32, Type::Ptr]).count(5), Some(2));
    assert_eq!(TypeList::from_vec(vec![Type::I32, Type::Ptr]).count(1), None);
}
