use svm::header::Error::{SyntaxErrorParamNeeded, SyntaxErrorUnknownOp, VerificationError};
use svm::header::UnverifiedOpcode;
use svm::header::UnverifiedOpcode::{
    CTGetOp, CallOp, EmosOp, FreeRgnOp, GetOp, GlobalFuncOp, HaltOp, HandleOp, I32Op, InitOp,
    LitOp, MallocOp, NewRgnOp, PackOp, PrintOp, ProjOp, RWOp, SomeOp, TupleOp, UnpackOp,
};
use svm::header::UnverifiedStmt;
use svm::header::VerifyErrorKind;
use svm::types::{Capability, FuncType, Region, Rights, Type, TypeList};
use svm::verify;
use svm::verify::VerifiedProgram;
use svm::vm;
use svm::vm::{Event, Machine, Outcome, Status, Value};

fn takes(params: Vec<Type>) -> FuncType {
    FuncType {
        params: TypeList::from_vec(params),
        requirement: Capability {
            region: Region::Local(0),
            rights: Rights::Handle,
        },
    }
}

fn program(functions: Vec<(Vec<Type>, Vec<UnverifiedOpcode>)>) -> VerifiedProgram {
    let mut table = vec![];
    let mut stmts = vec![];
    let mut label = 0;
    for (params, body) in functions {
        table.push(takes(params));
        let next = label + body.len() as u32 + 1;
        stmts.push(UnverifiedStmt::Func(label, body));
        label = next;
    }
    verify::go(table, stmts).unwrap()
}

fn run(functions: Vec<(Vec<Type>, Vec<UnverifiedOpcode>)>) -> Outcome {
    vm::go(program(functions), 64, 10_000)
}

/// The opcodes that make a region and put a capability on the constructor
/// stack that satisfies the requirement of every function of these tests.
fn with_capability(mut rest: Vec<UnverifiedOpcode>) -> Vec<UnverifiedOpcode> {
    let mut ops = vec![NewRgnOp, CTGetOp(1), HandleOp];
    ops.append(&mut rest);
    ops
}

#[test]
fn run_prints_and_halts() {
    let out = run(vec![(vec![], vec![LitOp(42), PrintOp, LitOp(-1), PrintOp, HaltOp(3)])]);
    assert_eq!(out.status, Status::Halted(3));
    assert_eq!(out.output, vec![Value::Int(42), Value::Int(-1)]);
}

#[test]
fn run_of_an_empty_program_finishes() {
    let out = run(vec![]);
    assert_eq!(out.status, Status::Finished);
    assert!(out.output.is_empty());
}

#[test]
fn run_finishes_at_the_end_of_the_first_function() {
    let out = run(vec![(vec![], vec![I32Op, I32Op, TupleOp(2)])]);
    assert_eq!(out.status, Status::Finished);
    let out = run(vec![(vec![], vec![])]);
    assert_eq!(out.status, Status::Finished);
}

#[test]
fn run_stops_at_the_first_halt() {
    let out = run(vec![(
        vec![],
        vec![LitOp(1), PrintOp, HaltOp(200), LitOp(2), PrintOp, HaltOp(0)],
    )]);
    assert_eq!(out.status, Status::Halted(200));
    assert_eq!(out.output, vec![Value::Int(1)]);
}

#[test]
fn run_writes_and_reads_the_fields_of_a_tuple() {
    let body = vec![
        NewRgnOp,
        I32Op,
        I32Op,
        TupleOp(2),
        CTGetOp(2),
        RWOp,
        MallocOp,
        LitOp(7),
        InitOp(0),
        LitOp(9),
        InitOp(1),
        GetOp(0),
        ProjOp(1),
        PrintOp,
        GetOp(1),
        ProjOp(0),
        PrintOp,
        GetOp(2),
        PrintOp,
        FreeRgnOp,
        HaltOp(0),
    ];
    let out = run(vec![(vec![], body)]);
    assert_eq!(out.status, Status::Halted(0));
    assert_eq!(
        out.output,
        vec![Value::Int(9), Value::Int(7), Value::Ptr(0, 0)]
    );
}

#[test]
fn run_numbers_regions_and_tuples_in_the_order_of_their_making() {
    let body = vec![
        NewRgnOp,
        PrintOp,
        NewRgnOp,
        PrintOp,
        I32Op,
        TupleOp(1),
        CTGetOp(2),
        RWOp,
        MallocOp,
        PrintOp,
        I32Op,
        TupleOp(1),
        CTGetOp(2),
        RWOp,
        MallocOp,
        PrintOp,
        I32Op,
        TupleOp(1),
        CTGetOp(4),
        RWOp,
        MallocOp,
        PrintOp,
        HaltOp(0),
    ];
    let out = run(vec![(vec![], body)]);
    assert_eq!(
        out.output,
        vec![
            Value::Handle(0),
            Value::Handle(1),
            Value::Ptr(1, 0),
            Value::Ptr(1, 1),
            Value::Ptr(0, 0),
        ]
    );
}

#[test]
fn run_overwrites_a_field_through_a_second_pointer() {
    let body = vec![
        NewRgnOp,
        I32Op,
        TupleOp(1),
        CTGetOp(2),
        RWOp,
        MallocOp,
        GetOp(0),
        LitOp(1),
        InitOp(0),
        GetOp(1),
        LitOp(2),
        InitOp(0),
        ProjOp(0),
        PrintOp,
        HaltOp(0),
    ];
    let out = run(vec![(vec![], body)]);
    assert_eq!(out.output, vec![Value::Int(2)]);
}

#[test]
fn run_passes_arguments_to_the_callee() {
    let main = with_capability(vec![LitOp(5), LitOp(6), GlobalFuncOp(1), CallOp, HaltOp(1)]);
    let callee = vec![PrintOp, GetOp(1), PrintOp, HaltOp(9)];
    let out = run(vec![(vec![], main), (vec![Type::I32, Type::I32], callee)]);
    assert_eq!(out.status, Status::Halted(9));
    assert_eq!(out.output, vec![Value::Int(6), Value::Int(5)]);
}

#[test]
fn run_returns_to_the_caller_at_the_end_of_the_callee() {
    let main = with_capability(vec![
        LitOp(1),
        PrintOp,
        CTGetOp(0),
        GlobalFuncOp(1),
        CallOp,
        GlobalFuncOp(1),
        CallOp,
        LitOp(3),
        PrintOp,
        HaltOp(0),
    ]);
    let callee = vec![I32Op];
    let out = run(vec![(vec![], main), (vec![], callee)]);
    assert_eq!(out.status, Status::Halted(0));
    assert_eq!(out.output, vec![Value::Int(1), Value::Int(3)]);
}

#[test]
fn run_calls_a_function_that_was_stored_in_a_tuple() {
    let callee_type = Type::Func(Box::new(takes(vec![Type::I32])));
    let table = vec![takes(vec![]), takes(vec![Type::I32])];
    let main = vec![
        NewRgnOp,
        // The type of the field: a function of one integer.
        I32Op,
        CTGetOp(2),
        HandleOp,
        svm::header::UnverifiedOpcode::FuncOp(1),
        TupleOp(1),
        CTGetOp(2),
        RWOp,
        MallocOp,
        GlobalFuncOp(1),
        InitOp(0),
        LitOp(77),
        GetOp(1),
        ProjOp(0),
        CTGetOp(1),
        HandleOp,
        CallOp,
        HaltOp(0),
    ];
    let stmts = vec![
        UnverifiedStmt::Func(0, main),
        UnverifiedStmt::Func(19, vec![PrintOp, HaltOp(4)]),
    ];
    let program = verify::go(table, stmts).unwrap();
    assert!(callee_type.same(&Type::Func(Box::new(program.table()[1].clone()))));
    let out = vm::go(program, 8, 1000);
    assert_eq!(out.status, Status::Halted(4));
    assert_eq!(out.output, vec![Value::Int(77)]);
}

#[test]
fn run_packs_and_unpacks() {
    let body = vec![
        SomeOp,
        I32Op,
        EmosOp,
        LitOp(5),
        PackOp,
        PrintOp,
        UnpackOp,
        PrintOp,
        HaltOp(0),
    ];
    let out = run(vec![(vec![], body)]);
    assert_eq!(
        out.output,
        vec![Value::Packed(Box::new(Value::Int(5))), Value::Int(5)]
    );
}

#[test]
fn run_gives_out_at_the_step_limit() {
    let main = with_capability(vec![LitOp(1), PrintOp, GlobalFuncOp(0), CallOp, HaltOp(0)]);
    let looping = program(vec![(vec![], main.clone())]);
    let out = vm::go(looping, usize::MAX, 70);
    assert_eq!(out.status, Status::OutOfSteps);
    // Seven opcodes to a round.
    assert_eq!(out.output.len(), 10);

    let out = vm::go(program(vec![(vec![], main)]), usize::MAX, 0);
    assert_eq!(out.status, Status::OutOfSteps);
    assert!(out.output.is_empty());
}

#[test]
fn run_gives_out_at_the_depth_limit() {
    let main = with_capability(vec![LitOp(1), PrintOp, GlobalFuncOp(0), CallOp, HaltOp(0)]);
    let out = vm::go(program(vec![(vec![], main.clone())]), 3, 10_000);
    assert_eq!(out.status, Status::Exhausted);
    assert_eq!(out.output.len(), 3);

    let out = vm::go(program(vec![(vec![], main)]), 1, 10_000);
    assert_eq!(out.status, Status::Exhausted);
    assert_eq!(out.output.len(), 1);
}

#[test]
fn a_halt_in_a_callee_drops_every_frame() {
    let main = with_capability(vec![GlobalFuncOp(1), CallOp, LitOp(1), PrintOp, HaltOp(0)]);
    let mut machine = Machine::new(
        program(vec![(vec![], main), (vec![], vec![HaltOp(5)])]),
        16,
    );
    let mut depths = vec![machine.depth()];
    let mut last = Event::Continue;
    for _ in 0..6 {
        let (next, event) = machine.step();
        machine = next;
        depths.push(machine.depth());
        last = event;
    }
    assert_eq!(depths, vec![1, 1, 1, 1, 1, 2, 0]);
    assert_eq!(last, Event::Halted(5));
    let (machine, event) = machine.step();
    assert_eq!(event, Event::Finished);
    assert_eq!(machine.depth(), 0);
}

#[test]
fn step_tells_what_happened() {
    let main = with_capability(vec![GlobalFuncOp(1), CallOp, LitOp(8), PrintOp, HaltOp(0)]);
    let mut machine = Machine::new(program(vec![(vec![], main), (vec![], vec![])]), 16);
    let mut events = vec![];
    for _ in 0..10 {
        let (next, event) = machine.step();
        machine = next;
        events.push(event);
    }
    assert_eq!(
        events,
        vec![
            Event::Continue,
            Event::Continue,
            Event::Continue,
            Event::Continue,
            Event::Continue,
            Event::Continue,
            Event::Continue,
            Event::Printed(Value::Int(8)),
            Event::Halted(0),
            Event::Finished,
        ]
    );
}

#[test]
fn the_whole_way_from_bytes_to_a_status() {
    let bytes = vec![
        0xCA, 0xFE, 0xBA, 0xBE, // header
        0x1B, 0x00, 0x00, 0x01, 0x00, // literal 256
        0x1A, // print
        0x1B, 0xFF, 0xFF, 0xFF, 0xFE, // literal -2
        0x1A, // print
        0x1D, 0x07, // halt 7
    ];
    let out = svm::go(&bytes, vec![takes(vec![])], 8, 100).unwrap();
    assert_eq!(out.status, Status::Halted(7));
    assert_eq!(out.output, vec![Value::Int(256), Value::Int(-2)]);
}

#[test]
fn the_whole_way_with_two_functions() {
    let bytes = vec![
        0, 0, 0, 0, // header
        0x23, 0x12, 0x01, 0x08, // new region, copy its token, handle capability
        0x1B, 0, 0, 0, 11, // literal 11
        0x1C, 0, 0, 0, 1,    // function 1
        0x19, // call
        0x1D, 0x00, // halt 0
        0x0A, // end of function
        0x1A, 0x1D, 0x02, // print, halt 2
    ];
    let out = svm::go(&bytes, vec![takes(vec![]), takes(vec![Type::I32])], 8, 100).unwrap();
    assert_eq!(out.status, Status::Halted(2));
    assert_eq!(out.output, vec![Value::Int(11)]);
}

#[test]
fn nothing_runs_when_lexing_fails() {
    let bytes = vec![0, 0, 0, 0, 0x1B, 0, 0, 0, 1, 0x1A, 0x77];
    assert_eq!(
        svm::go(&bytes, vec![takes(vec![])], 8, 100).unwrap_err(),
        SyntaxErrorUnknownOp(10, 0x77)
    );
}

#[test]
fn nothing_runs_when_verification_fails() {
    // The second function does not verify, so the first one prints nothing.
    let bytes = vec![0, 0, 0, 0, 0x1B, 0, 0, 0, 1, 0x1A, 0x1D, 0, 0x0A, 0x1A];
    assert_eq!(
        svm::go(&bytes, vec![takes(vec![]), takes(vec![])], 8, 100).unwrap_err(),
        VerificationError(4, 0, VerifyErrorKind::StackUnderflow)
    );
}

#[test]
fn the_smoke_program_is_cut_short() {
    let bytes: [u8; 23] = [
        0x00, 0x00, 0x00, 0x00, 0x01, 0x00, 0x00, 0x00, 0x09, 0x00, 0x0B, 0x13, 0x07, 0x00, 0x00,
        0x00, 0x12, 0x13, 0x00, 0x00, 0x00, 0x00, 0x15,
    ];
    // The last byte is the tag of an opcode with an operand, and the stream
    // ends behind it.
    assert_eq!(
        svm::parse::lex(&bytes.to_vec()),
        Err(SyntaxErrorParamNeeded(22, 0x15))
    );
    assert_eq!(
        svm::go(&bytes.to_vec(), vec![takes(vec![])], 8, 100).unwrap_err(),
        SyntaxErrorParamNeeded(22, 0x15)
    );
    // Without its last byte the stream is one function of seventeen opcodes,
    // which the verifier refuses at its second opcode.
    let stmts = svm::parse::go(&bytes[..22].to_vec()).unwrap();
    assert_eq!(stmts.len(), 1);
    assert_eq!(stmts[0].opcodes().len(), 17);
    assert_eq!(
        svm::go(&bytes[..22].to_vec(), vec![takes(vec![])], 8, 100).unwrap_err(),
        VerificationError(0, 1, VerifyErrorKind::NoRule)
    );
}

#[test]
fn no_program_that_verifies_makes_the_machine_give_up() {
    let alphabet = [
        NewRgnOp,
        I32Op,
        TupleOp(1),
        CTGetOp(1),
        CTGetOp(2),
        RWOp,
        HandleOp,
        MallocOp,
        LitOp(1),
        InitOp(0),
        ProjOp(0),
        GetOp(0),
        GetOp(1),
        FreeRgnOp,
        PrintOp,
        GlobalFuncOp(1),
        CallOp,
    ];
    // Every body of up to four of these opcodes, and the bodies of up to six
    // that begin by allocating a tuple; each body halts at its end.
    let allocate = [NewRgnOp, I32Op, TupleOp(1), CTGetOp(2), RWOp, MallocOp];
    let mut bodies: Vec<Vec<UnverifiedOpcode>> = vec![vec![]];
    let mut from = 0;
    for _ in 0..4 {
        let upto = bodies.len();
        for i in from..upto {
            for op in alphabet {
                let mut longer = bodies[i].clone();
                longer.push(op);
                bodies.push(longer);
            }
        }
        from = upto;
    }
    let short = bodies.len();
    for i in 0..short {
        if bodies[i].len() <= 3 {
            let mut longer = allocate.to_vec();
            longer.extend(bodies[i].iter().copied());
            bodies.push(longer);
        }
    }
    let mut ran = 0;
    let mut printed = 0;
    for body in bodies {
        let mut main = body;
        main.push(HaltOp(0));
        let table = vec![takes(vec![]), takes(vec![Type::I32])];
        let stmts = vec![
            UnverifiedStmt::Func(0, main),
            UnverifiedStmt::Func(100, vec![PrintOp, HaltOp(1)]),
        ];
        if let Ok(program) = verify::go(table, stmts) {
            let mut machine = Machine::new(program, 4);
            for _ in 0..16 {
                let (next, event) = machine.step();
                machine = next;
                match event {
                    Event::Fault(fault) => panic!("{:?}", fault),
                    Event::Printed(_) => printed += 1,
                    _ => {}
                }
            }
            ran += 1;
        }
    }
    assert!(ran > 1000);
    assert!(printed > 100);
}
