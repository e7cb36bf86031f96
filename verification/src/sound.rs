//! Why a verified program cannot make the machine give up: the types that
//! the verifier computed describe, at every step, the values that the
//! machine holds.

use crate::header::Error;
use crate::header::FuncView;
use crate::header::UnverifiedOpcode;
use crate::header::VerifyErrorKind;
use crate::types::Entry;
use crate::types::FieldList;
use crate::types::FuncType;
use crate::types::Quantifier;
use crate::types::StackType;
use crate::types::Type;
use crate::types::TypeList;
use crate::types::CapState;
use crate::verify::ProgramView;
use crate::verify::StateView;
use crate::verify::VerifiedOpcode;
use crate::verify::args_match;
use crate::verify::check_from;
use crate::verify::plain_types;
use crate::verify::check_function;
use crate::verify::ends_with_halt;
use crate::verify::entry_state;
use crate::verify::erased;
use crate::verify::step_spec;
use crate::verify::well_typed;
use crate::vm::FrameView;
use crate::vm::MachineView;
use crate::vm::RegionView;
use crate::vm::Value;
use crate::vm::exec_spec;
use crate::vm::put;
use crate::vm::start_view;
use crate::vm::zero_cell;
use crate::vm::return_spec;
use crate::vm::vm_step;
use vstd::prelude::*;

verus! {

/// The verifier state behind the first `pc` opcodes of `body`, beginning in
/// state `s0`; `None` where one of them is refused.
pub open spec fn state_after(
    table: Seq<FuncType>,
    count: nat,
    s0: StateView,
    body: Seq<UnverifiedOpcode>,
    pc: nat,
) -> Option<StateView>
    decreases pc,
{
    if pc == 0 {
        Some(s0)
    } else {
        match state_after(table, count, s0, body, (pc - 1) as nat) {
            None => None,
            Some(s) => match step_spec(table, count, s, body[pc - 1], (pc - 1) as nat) {
                Ok((next, _)) => Some(next),
                Err(_) => None,
            },
        }
    }
}

/// The verifier state in which opcode `pc` of function `func` runs.
pub open spec fn state_at(p: ProgramView, func: int, pc: nat) -> StateView {
    state_after(
        p.table,
        p.functions.len(),
        entry_state(p.table[func].params),
        erased(p.functions[func].code),
        pc,
    )->Some_0
}

/// A body that verifies from offset `k` on has a verifier state at every
/// later offset, each opcode leads from its state to the next one and
/// leaves the opcode that the verified body holds, and the state at the end
/// has an empty value stack unless the body ends by halting the machine.
proof fn lemma_check_states(
    table: Seq<FuncType>,
    count: nat,
    s0: StateView,
    body: Seq<UnverifiedOpcode>,
    k: nat,
    code: Seq<VerifiedOpcode>,
)
    requires
        k <= body.len(),
        state_after(table, count, s0, body, k) is Some,
        check_from(table, count, state_after(table, count, s0, body, k)->Some_0, body, k) == Ok::<
            _,
            (nat, VerifyErrorKind),
        >(code),
    ensures
        code.len() == body.len() - k,
        forall|pc: nat|
            k <= pc <= body.len() ==> (#[trigger] state_after(table, count, s0, body, pc)) is Some,
        forall|pc: nat|
            k <= pc < body.len() ==> step_spec(
                table,
                count,
                state_after(table, count, s0, body, pc)->Some_0,
                body[pc as int],
                pc,
            ) == Ok::<_, VerifyErrorKind>(
                (
                    (#[trigger] state_after(table, count, s0, body, (pc + 1) as nat))->Some_0,
                    code[pc - k],
                ),
            ),
        !ends_with_halt(body) ==> state_after(table, count, s0, body, body.len())->Some_0.tstack.len()
            == 0,
    decreases body.len() - k,
{
    let s = state_after(table, count, s0, body, k)->Some_0;
    if k < body.len() {
        let stepped = step_spec(table, count, s, body[k as int], k);
        let next = stepped->Ok_0.0;
        let vop = stepped->Ok_0.1;
        assert(state_after(table, count, s0, body, (k + 1) as nat) == Some(next));
        let rest = check_from(table, count, next, body, k + 1)->Ok_0;
        assert(code =~= seq![vop] + rest);
        lemma_check_states(table, count, s0, body, (k + 1) as nat, rest);
        assert forall|pc: nat| k <= pc < body.len() implies step_spec(
            table,
            count,
            state_after(table, count, s0, body, pc)->Some_0,
            body[pc as int],
            pc,
        ) == Ok::<_, VerifyErrorKind>(
            (
                (#[trigger] state_after(table, count, s0, body, (pc + 1) as nat))->Some_0,
                code[pc - k],
            ),
        ) by {
            if pc > k {
                assert(code[pc - k] == rest[pc - (k + 1)]);
            }
        }
    }
}

/// In a well-typed program every function has a declared type and a
/// verifier state at each of its offsets; each opcode leads from its state
/// to the next one; the state at the end has an empty value stack unless the
/// function ends by halting the machine; and the first function takes no
/// arguments.
pub proof fn lemma_states(p: ProgramView, func: int)
    requires
        well_typed(p),
        0 <= func < p.functions.len(),
    ensures
        func < p.table.len(),
        func == 0 ==> p.table[0].params == TypeList::Nil,
        state_at(p, func, 0) == entry_state(p.table[func].params),
        forall|pc: nat|
            pc < p.functions[func].code.len() ==> step_spec(
                p.table,
                p.functions.len(),
                state_at(p, func, pc),
                p.functions[func].code[pc as int].erase(),
                pc,
            ) == Ok::<_, VerifyErrorKind>(
                (#[trigger] state_at(p, func, (pc + 1) as nat), p.functions[func].code[pc as int]),
            ),
        p.functions[func].code.len() == 0 || !(p.functions[func].code.last() is Halt) ==> state_at(
            p,
            func,
            p.functions[func].code.len(),
        ).tstack.len() == 0,
{
    let f = p.functions[func];
    let body = erased(f.code);
    let checked = check_function(
        p.table,
        p.functions.len(),
        func as nat,
        FuncView { label: f.label, body },
    );
    assert(checked == Ok::<_, Error>(f.code));
    let s0 = entry_state(p.table[func].params);
    lemma_check_states(p.table, p.functions.len(), s0, body, 0, f.code);
    assert(body.len() == f.code.len());
    assert forall|pc: nat| pc < f.code.len() implies step_spec(
        p.table,
        p.functions.len(),
        state_at(p, func, pc),
        f.code[pc as int].erase(),
        pc,
    ) == Ok::<_, VerifyErrorKind>((#[trigger] state_at(p, func, (pc + 1) as nat), f.code[pc as int])) by {
        assert(body[pc as int] == f.code[pc as int].erase());
        assert(state_after(p.table, p.functions.len(), s0, body, (pc + 1) as nat) is Some);
    }
    if f.code.len() > 0 {
        let last = (f.code.len() - 1) as nat;
        assert(body.last() == f.code.last().erase());
        assert(step_spec(p.table, p.functions.len(), state_at(p, func, last), body[last as int], last)
            == Ok::<_, VerifyErrorKind>((state_at(p, func, (last + 1) as nat), f.code[last as int])));
        assert(body.last() is HaltOp ==> f.code.last() is Halt);
    }
}

/// For each tuple of each region, the types of its fields.
pub type HeapTyping = Seq<Seq<Seq<Type>>>;

/// Whether the value is one of the given type of the type language.
pub open spec fn plain_ok(p: ProgramView, v: Value, t: Type) -> bool
    decreases v,
{
    match t {
        Type::I32 => v is Int,
        Type::Func(f) => v matches Value::Func(i) && i < p.functions.len() && i < p.table.len()
            && p.table[i as int] == *f,
        Type::Quantified(Quantifier::Exists, body) => v matches Value::Packed(inner)
            && body.last_type() matches Some(t2) && plain_ok(p, *inner, t2),
        _ => false,
    }
}

/// The types of the given fields.
pub open spec fn field_types(fields: Seq<(Type, bool)>) -> Seq<Type> {
    fields.map_values(|f: (Type, bool)| f.0)
}

/// Whether the tuple has the given fields, and each field that is marked as
/// initialised holds a value of its type.
pub open spec fn cell_ok(p: ProgramView, cell: Seq<Value>, fields: Seq<(Type, bool)>) -> bool {
    &&& cell.len() == fields.len()
    &&& forall|j: int|
        0 <= j < fields.len() ==> ((#[trigger] fields[j]).1 ==> plain_ok(p, cell[j], fields[j].0))
}

/// Whether the value is one of the given type, in a frame with the given
/// regions.
pub open spec fn value_ok(
    p: ProgramView,
    heap: Seq<RegionView>,
    psi: HeapTyping,
    regions: Seq<usize>,
    v: Value,
    t: StackType,
) -> bool {
    match t {
        StackType::Plain(ty) => plain_ok(p, v, ty),
        StackType::Handle(id) => id < regions.len() && v == Value::Handle(regions[id as int]),
        StackType::TuplePtr(id, fields) => {
            &&& id < regions.len()
            &&& v matches Value::Ptr(r, a)
            &&& r == regions[id as int]
            &&& r < heap.len()
            &&& heap[r as int].live ==> {
                &&& a < heap[r as int].cells.len()
                &&& psi[r as int][a as int] == field_types(fields@)
                &&& cell_ok(p, heap[r as int].cells[a as int], fields@)
            }
        },
    }
}

/// Whether the frame holds what the verifier state at its cursor says: a
/// value of its type in each slot of the value stack, and a region for each
/// capability, which has not been freed where the capability is held.
pub open spec fn frame_ok(p: ProgramView, heap: Seq<RegionView>, psi: HeapTyping, f: FrameView) -> bool {
    &&& f.func < p.functions.len()
    &&& f.pc <= p.functions[f.func as int].code.len()
    &&& f.pc > 0 ==> !(p.functions[f.func as int].code[f.pc - 1] is Halt)
    &&& f.stack.len() == state_at(p, f.func as int, f.pc as nat).tstack.len()
    &&& forall|j: int|
        0 <= j < f.stack.len() ==> value_ok(
            p,
            heap,
            psi,
            f.regions,
            #[trigger] f.stack[j],
            state_at(p, f.func as int, f.pc as nat).tstack[j],
        )
    &&& f.regions.len() == state_at(p, f.func as int, f.pc as nat).env.len()
    &&& f.regions.len() <= usize::MAX
    &&& forall|id: int|
        0 <= id < f.regions.len() ==> {
            &&& (#[trigger] f.regions[id]) < heap.len()
            &&& state_at(p, f.func as int, f.pc as nat).env[id] == CapState::Held
                ==> heap[f.regions[id] as int].live
        }
}

/// Whether the typing of the heap fits the heap: it names the types of the
/// fields of every tuple of every region that has not been freed.
pub open spec fn heap_ok(heap: Seq<RegionView>, psi: HeapTyping) -> bool {
    &&& psi.len() == heap.len()
    &&& heap.len() <= usize::MAX
    &&& forall|r: int|
        0 <= r < heap.len() && (#[trigger] heap[r]).live ==> {
            &&& psi[r].len() == heap[r].cells.len()
            &&& heap[r].cells.len() <= usize::MAX
            &&& forall|a: int|
                0 <= a < heap[r].cells.len() ==> (#[trigger] psi[r][a]).len()
                    == heap[r].cells[a].len()
        }
}

/// The region with number `i` of frame `k`.
pub open spec fn region_of(frames: Seq<FrameView>, k: int, i: int) -> usize {
    frames[k].regions[i]
}

/// Whether no region belongs to two frames, or twice to one.
pub open spec fn regions_distinct(frames: Seq<FrameView>) -> bool {
    forall|k1: int, i1: int, k2: int, i2: int|
        0 <= k1 < frames.len() && 0 <= i1 < frames[k1].regions.len() && 0 <= k2 < frames.len()
            && 0 <= i2 < frames[k2].regions.len() && (k1 != k2 || i1 != i2) ==> #[trigger] region_of(
            frames,
            k1,
            i1,
        ) != #[trigger] region_of(frames, k2, i2)
}

/// Whether the machine can count the functions of the program and the
/// opcodes of each.
pub open spec fn program_fits(p: ProgramView) -> bool {
    &&& p.functions.len() <= usize::MAX
    &&& forall|i: int|
        0 <= i < p.functions.len() ==> (#[trigger] p.functions[i]).code.len() <= usize::MAX
}

/// What holds of a machine that runs a verified program, at every step: the
/// program is well typed, and the frames and the heap hold what the types
/// say.
pub open spec fn machine_ok(p: ProgramView, m: MachineView, psi: HeapTyping) -> bool {
    &&& well_typed(p)
    &&& program_fits(p)
    &&& heap_ok(m.heap, psi)
    &&& regions_distinct(m.frames)
    &&& forall|k: int| 0 <= k < m.frames.len() ==> frame_ok(p, m.heap, psi, #[trigger] m.frames[k])
}

/// Whether the second heap keeps what the first one holds: every region of
/// the first that has not been freed in the second was not freed in the
/// first either, still has the tuples it had, with fields of the same types,
/// and a field that held a value of its type still holds one.
pub open spec fn heap_grows(
    p: ProgramView,
    heap: Seq<RegionView>,
    psi: HeapTyping,
    heap2: Seq<RegionView>,
    psi2: HeapTyping,
) -> bool {
    &&& heap.len() <= heap2.len()
    &&& forall|r: int|
        0 <= r < heap.len() && (#[trigger] heap2[r]).live ==> {
            &&& heap[r].live
            &&& heap[r].cells.len() <= heap2[r].cells.len()
            &&& forall|a: int|
                0 <= a < heap[r].cells.len() ==> {
                    &&& (#[trigger] psi2[r][a]) == psi[r][a]
                    &&& heap2[r].cells[a].len() == heap[r].cells[a].len()
                    &&& cell_kept(p, heap[r].cells[a], heap2[r].cells[a], psi[r][a])
                }
        }
}

/// Whether each field of the first tuple that holds a value of its type
/// holds one in the second tuple too.
pub open spec fn cell_kept(p: ProgramView, cell: Seq<Value>, cell2: Seq<Value>, types: Seq<Type>) -> bool {
    forall|j: int|
        0 <= j < cell.len() && plain_ok(p, cell[j], #[trigger] types[j]) ==> plain_ok(
            p,
            cell2[j],
            types[j],
        )
}

/// A value keeps its type when the heap keeps what it holds.
proof fn lemma_value_stable(
    p: ProgramView,
    heap: Seq<RegionView>,
    psi: HeapTyping,
    heap2: Seq<RegionView>,
    psi2: HeapTyping,
    regions: Seq<usize>,
    v: Value,
    t: StackType,
)
    requires
        value_ok(p, heap, psi, regions, v, t),
        heap_ok(heap, psi),
        heap_grows(p, heap, psi, heap2, psi2),
    ensures
        value_ok(p, heap2, psi2, regions, v, t),
{
    match t {
        StackType::TuplePtr(id, fields) => {
            let r = v->Ptr_0 as int;
            let a = v->Ptr_1 as int;
            if heap2[r].live {
                assert(heap[r].live);
                assert(psi2[r][a] == psi[r][a]);
                let cell = heap[r].cells[a];
                let cell2 = heap2[r].cells[a];
                assert(cell_kept(p, cell, cell2, psi[r][a]));
                assert forall|j: int| 0 <= j < fields@.len() && (#[trigger] fields@[j]).1 implies plain_ok(
                    p,
                    cell2[j],
                    fields@[j].0,
                ) by {
                    assert(psi[r][a][j] == fields@[j].0);
                }
            }
        },
        _ => {},
    }
}

/// A value keeps its type when its frame gets a further region.
proof fn lemma_value_more_regions(
    p: ProgramView,
    heap: Seq<RegionView>,
    psi: HeapTyping,
    regions: Seq<usize>,
    r: usize,
    v: Value,
    t: StackType,
)
    requires
        value_ok(p, heap, psi, regions, v, t),
    ensures
        value_ok(p, heap, psi, regions.push(r), v, t),
{
}

/// A frame keeps holding what its types say when the heap keeps what it
/// holds and frees none of the regions whose capability the frame holds.
proof fn lemma_frame_stable(
    p: ProgramView,
    heap: Seq<RegionView>,
    psi: HeapTyping,
    heap2: Seq<RegionView>,
    psi2: HeapTyping,
    f: FrameView,
)
    requires
        frame_ok(p, heap, psi, f),
        heap_ok(heap, psi),
        heap_grows(p, heap, psi, heap2, psi2),
        forall|id: int|
            0 <= id < f.regions.len() && heap[(#[trigger] f.regions[id]) as int].live
                ==> heap2[f.regions[id] as int].live,
    ensures
        frame_ok(p, heap2, psi2, f),
{
    let s = state_at(p, f.func as int, f.pc as nat);
    assert forall|j: int| 0 <= j < f.stack.len() implies value_ok(
        p,
        heap2,
        psi2,
        f.regions,
        #[trigger] f.stack[j],
        s.tstack[j],
    ) by {
        lemma_value_stable(p, heap, psi, heap2, psi2, f.regions, f.stack[j], s.tstack[j]);
    }
}

/// The machine stays in order when its innermost frame is replaced by one
/// that holds what its types say and has the same regions.
proof fn lemma_put_top(p: ProgramView, m: MachineView, psi: HeapTyping, g: FrameView)
    requires
        machine_ok(p, m, psi),
        m.frames.len() > 0,
        g.regions == m.frames.last().regions,
        frame_ok(p, m.heap, psi, g),
    ensures
        machine_ok(p, MachineView { frames: m.frames.drop_last().push(g), ..m }, psi),
{
    let frames2 = m.frames.drop_last().push(g);
    assert forall|k: int| 0 <= k < frames2.len() implies frame_ok(
        p,
        m.heap,
        psi,
        #[trigger] frames2[k],
    ) by {
        if k < frames2.len() - 1 {
            assert(frames2[k] == m.frames[k]);
        }
    }
    lemma_regions_bound(p, m, psi);
    lemma_distinct_put(m.frames, g, m.heap.len() as int);
}

/// Every region of every frame of a machine that is in order is a region
/// of the heap.
proof fn lemma_regions_bound(p: ProgramView, m: MachineView, psi: HeapTyping)
    requires
        machine_ok(p, m, psi),
    ensures
        forall|k: int, i: int|
            0 <= k < m.frames.len() && 0 <= i < m.frames[k].regions.len() ==> (#[trigger] region_of(
                m.frames,
                k,
                i,
            )) < m.heap.len(),
{
    assert forall|k: int, i: int|
        0 <= k < m.frames.len() && 0 <= i < m.frames[k].regions.len() implies (#[trigger] region_of(
        m.frames,
        k,
        i,
    )) < m.heap.len() by {
        assert(frame_ok(p, m.heap, psi, m.frames[k]));
        assert(m.frames[k].regions[i] < m.heap.len());
    }
}

/// The frames below the innermost one keep holding what their types say
/// when the heap keeps what it holds and frees only regions of the innermost
/// frame.
proof fn lemma_lower_frames_stable(
    p: ProgramView,
    m: MachineView,
    psi: HeapTyping,
    heap2: Seq<RegionView>,
    psi2: HeapTyping,
    k: int,
)
    requires
        machine_ok(p, m, psi),
        0 <= k < m.frames.len() - 1,
        heap_grows(p, m.heap, psi, heap2, psi2),
        forall|r: int|
            0 <= r < m.heap.len() && (#[trigger] m.heap[r]).live && !heap2[r].live ==> exists|
                id: int,
            |
                0 <= id < m.frames.last().regions.len() && #[trigger] m.frames.last().regions[id]
                    == r,
    ensures
        frame_ok(p, heap2, psi2, m.frames[k]),
{
    let top = m.frames.len() - 1;
    let f = m.frames[k];
    assert(frame_ok(p, m.heap, psi, f));
    assert forall|id: int|
        0 <= id < f.regions.len() && m.heap[(#[trigger] f.regions[id]) as int].live implies heap2[f.regions[id] as int].live by {
        let r = f.regions[id] as int;
        assert(m.heap[r].live);
        if !heap2[r].live {
            let id2 = choose|id2: int|
                0 <= id2 < m.frames.last().regions.len() && #[trigger] m.frames.last().regions[id2]
                    == r;
            assert(region_of(m.frames, k, id) != region_of(m.frames, top, id2));
        }
    }
    lemma_frame_stable(p, m.heap, psi, heap2, psi2, f);
}

/// No region belongs to two frames, or twice to one, when the innermost
/// frame keeps its regions or gets a region that no frame has.
proof fn lemma_distinct_put(frames: Seq<FrameView>, g: FrameView, bound: int)
    requires
        regions_distinct(frames),
        frames.len() > 0,
        forall|k: int, i: int|
            0 <= k < frames.len() && 0 <= i < frames[k].regions.len() ==> (#[trigger] region_of(
                frames,
                k,
                i,
            )) < bound,
        g.regions == frames.last().regions || (g.regions == frames.last().regions.push(
            bound as usize,
        ) && bound == bound as usize),
    ensures
        regions_distinct(frames.drop_last().push(g)),
{
    let frames2 = frames.drop_last().push(g);
    let top = frames.len() - 1;
    assert forall|k1: int, i1: int, k2: int, i2: int|
        0 <= k1 < frames2.len() && 0 <= i1 < frames2[k1].regions.len() && 0 <= k2 < frames2.len()
            && 0 <= i2 < frames2[k2].regions.len() && (k1 != k2 || i1 != i2) implies #[trigger] region_of(
        frames2,
        k1,
        i1,
    ) != #[trigger] region_of(frames2, k2, i2) by {
        let old1 = i1 < frames[k1].regions.len();
        let old2 = i2 < frames[k2].regions.len();
        if k1 < top {
            assert(frames2[k1] == frames[k1]);
        }
        if k2 < top {
            assert(frames2[k2] == frames[k2]);
        }
        if old1 {
            assert(region_of(frames2, k1, i1) == region_of(frames, k1, i1));
            assert(region_of(frames, k1, i1) < bound);
        } else {
            assert(region_of(frames2, k1, i1) == bound);
        }
        if old2 {
            assert(region_of(frames2, k2, i2) == region_of(frames, k2, i2));
            assert(region_of(frames, k2, i2) < bound);
        } else {
            assert(region_of(frames2, k2, i2) == bound);
        }
        if old1 && old2 {
            assert(region_of(frames, k1, i1) != region_of(frames, k2, i2));
        }
    }
}

/// The machine stays in order when its innermost frame and its heap change
/// together: the new heap keeps what the old one held and frees only
/// regions of the innermost frame, and the new frame holds what its types
/// say and has the regions of the old one, or those and a new one.
proof fn lemma_change_heap(
    p: ProgramView,
    m: MachineView,
    psi: HeapTyping,
    g: FrameView,
    heap2: Seq<RegionView>,
    psi2: HeapTyping,
)
    requires
        machine_ok(p, m, psi),
        m.frames.len() > 0,
        heap_ok(heap2, psi2),
        heap_grows(p, m.heap, psi, heap2, psi2),
        frame_ok(p, heap2, psi2, g),
        g.regions == m.frames.last().regions || (g.regions == m.frames.last().regions.push(
            m.heap.len() as usize,
        ) && heap2.len() > m.heap.len()),
        forall|r: int|
            0 <= r < m.heap.len() && (#[trigger] m.heap[r]).live && !heap2[r].live ==> exists|
                id: int,
            |
                0 <= id < m.frames.last().regions.len() && #[trigger] m.frames.last().regions[id]
                    == r,
    ensures
        machine_ok(
            p,
            MachineView { frames: m.frames.drop_last().push(g), heap: heap2, ..m },
            psi2,
        ),
{
    let top = m.frames.len() - 1;
    let frames2 = m.frames.drop_last().push(g);
    assert forall|k: int| 0 <= k < frames2.len() implies frame_ok(
        p,
        heap2,
        psi2,
        #[trigger] frames2[k],
    ) by {
        if k < top {
            assert(frames2[k] == m.frames[k]);
            lemma_lower_frames_stable(p, m, psi, heap2, psi2, k);
        }
    }
    lemma_regions_bound(p, m, psi);
    lemma_distinct_put(m.frames, g, m.heap.len() as int);
}

/// Whether the machine is in order and about to run the opcode `op`.
pub open spec fn ready(p: ProgramView, m: MachineView, psi: HeapTyping, op: VerifiedOpcode) -> bool {
    &&& machine_ok(p, m, psi)
    &&& m.frames.len() > 0
    &&& m.frames.last().func < p.functions.len()
    &&& m.frames.last().pc < p.functions[m.frames.last().func as int].code.len()
    &&& p.functions[m.frames.last().func as int].code[m.frames.last().pc as int] == op
}

/// What the verifier knows where the machine is about to run `op`: the
/// innermost frame holds what the state at its cursor says, and `op` leads
/// from that state to the state at the next offset.
proof fn lemma_ready(p: ProgramView, m: MachineView, psi: HeapTyping, op: VerifiedOpcode)
    requires
        ready(p, m, psi, op),
    ensures
        frame_ok(p, m.heap, psi, m.frames.last()),
        m.frames.last().pc + 1 <= usize::MAX,
        step_spec(
            p.table,
            p.functions.len(),
            state_at(p, m.frames.last().func as int, m.frames.last().pc as nat),
            op.erase(),
            m.frames.last().pc as nat,
        ) == Ok::<_, VerifyErrorKind>(
            (state_at(p, m.frames.last().func as int, (m.frames.last().pc + 1) as nat), op),
        ),
{
    let f = m.frames.last();
    assert(f == m.frames[m.frames.len() - 1]);
    lemma_states(p, f.func as int);
    assert(p.functions[f.func as int].code.len() <= usize::MAX);
}

/// An opcode that works on the constructor stack alone changes neither the
/// types of the values nor the capabilities.
proof fn lemma_static_keeps(
    table: Seq<FuncType>,
    count: nat,
    s: StateView,
    op: UnverifiedOpcode,
    pc: nat,
)
    ensures
        step_spec(table, count, s, op, pc) matches Ok((s2, VerifiedOpcode::Static(_))) ==> s2.tstack
            == s.tstack && s2.env == s.env,
{
}

/// A verified program does not make an opcode of the constructor stack give
/// up, and the machine is in order behind it.
proof fn lemma_sound_static(p: ProgramView, m: MachineView, psi: HeapTyping, op: VerifiedOpcode)
    requires
        ready(p, m, psi, op),
        op is Static,
    ensures
        !(exec_spec(p.functions.len(), m, op).1 is Fault),
        machine_ok(p, exec_spec(p.functions.len(), m, op).0, psi),
{
    lemma_ready(p, m, psi, op);
    let f = m.frames.last();
    let s = state_at(p, f.func as int, f.pc as nat);
    lemma_static_keeps(p.table, p.functions.len(), s, op.erase(), f.pc as nat);
    let g = FrameView { pc: (f.pc + 1) as usize, ..f };
    assert(frame_ok(p, m.heap, psi, g));
    lemma_put_top(p, m, psi, g);
}

/// A verified program does not make an opcode that pushes a value give up,
/// and the machine is in order behind it.
proof fn lemma_sound_push(p: ProgramView, m: MachineView, psi: HeapTyping, op: VerifiedOpcode)
    requires
        ready(p, m, psi, op),
        op is Lit || op is GlobalFunc || op is Get,
    ensures
        !(exec_spec(p.functions.len(), m, op).1 is Fault),
        machine_ok(p, exec_spec(p.functions.len(), m, op).0, psi),
{
    lemma_ready(p, m, psi, op);
    let f = m.frames.last();
    let s = state_at(p, f.func as int, f.pc as nat);
    let s2 = state_at(p, f.func as int, (f.pc + 1) as nat);
    let next = exec_spec(p.functions.len(), m, op).0;
    let g = next.frames.last();
    assert(g.stack.len() == f.stack.len() + 1);
    assert forall|j: int| 0 <= j < g.stack.len() implies value_ok(
        p,
        m.heap,
        psi,
        g.regions,
        #[trigger] g.stack[j],
        s2.tstack[j],
    ) by {
        if j < f.stack.len() {
            assert(g.stack[j] == f.stack[j]);
            assert(s2.tstack[j] == s.tstack[j]);
        } else {
            match op {
                VerifiedOpcode::Get(n) => {
                    let from = f.stack.len() - 1 - n;
                    assert(g.stack[j] == f.stack[from]);
                    assert(s2.tstack[j] == s.tstack[from]);
                },
                _ => {},
            }
        }
    }
    assert(frame_ok(p, m.heap, psi, g));
    lemma_put_top(p, m, psi, g);
    assert(next.frames =~= m.frames.drop_last().push(g));
}

/// A verified program does not make a print opcode or a halt opcode give
/// up, and the machine is in order behind it.
proof fn lemma_sound_print_halt(
    p: ProgramView,
    m: MachineView,
    psi: HeapTyping,
    op: VerifiedOpcode,
)
    requires
        ready(p, m, psi, op),
        op is Print || op is Halt,
    ensures
        !(exec_spec(p.functions.len(), m, op).1 is Fault),
        machine_ok(p, exec_spec(p.functions.len(), m, op).0, psi),
{
    lemma_ready(p, m, psi, op);
    let f = m.frames.last();
    let g = FrameView { pc: (f.pc + 1) as usize, ..f };
    if op is Print {
        assert(frame_ok(p, m.heap, psi, g));
        lemma_put_top(p, m, psi, g);
    }
}

/// A verified program does not make a pack opcode or an unpack opcode give
/// up, and the machine is in order behind it.
proof fn lemma_sound_pack(p: ProgramView, m: MachineView, psi: HeapTyping, op: VerifiedOpcode)
    requires
        ready(p, m, psi, op),
        op is Pack || op is Unpack,
    ensures
        !(exec_spec(p.functions.len(), m, op).1 is Fault),
        machine_ok(p, exec_spec(p.functions.len(), m, op).0, psi),
{
    lemma_ready(p, m, psi, op);
    let f = m.frames.last();
    let s = state_at(p, f.func as int, f.pc as nat);
    let s2 = state_at(p, f.func as int, (f.pc + 1) as nat);
    let len = f.stack.len();
    assert(len > 0);
    assert(value_ok(p, m.heap, psi, f.regions, f.stack[len - 1], s.tstack[len - 1]));
    let next = exec_spec(p.functions.len(), m, op).0;
    let g = next.frames.last();
    assert(g.stack.len() == len);
    assert forall|j: int| 0 <= j < g.stack.len() implies value_ok(
        p,
        m.heap,
        psi,
        g.regions,
        #[trigger] g.stack[j],
        s2.tstack[j],
    ) by {
        if j < len - 1 {
            assert(g.stack[j] == f.stack[j]);
            assert(s2.tstack[j] == s.tstack[j]);
        }
    }
    assert(frame_ok(p, m.heap, psi, g));
    lemma_put_top(p, m, psi, g);
    assert(next.frames =~= m.frames.drop_last().push(g));
}

/// The types of the fields of the tuple that an allocation in state `s`
/// makes.
pub open spec fn malloc_types(s: StateView) -> Seq<Type> {
    if s.cstack.len() >= 2 {
        match s.cstack[s.cstack.len() - 2] {
            Entry::Type(Type::Tuple(types)) => types@,
            _ => Seq::empty(),
        }
    } else {
        Seq::empty()
    }
}

/// The typing of the heap behind the next step of the machine: a new region
/// has no tuples, a new tuple has fields of the types that were allocated,
/// and nothing else changes.
pub open spec fn next_typing(p: ProgramView, m: MachineView, psi: HeapTyping) -> HeapTyping {
    if m.frames.len() == 0 {
        psi
    } else {
        let f = m.frames.last();
        if f.func >= p.functions.len() || f.pc >= p.functions[f.func as int].code.len() {
            psi
        } else {
            match p.functions[f.func as int].code[f.pc as int] {
                VerifiedOpcode::NewRgn => if m.heap.len() >= usize::MAX || f.regions.len()
                    >= usize::MAX {
                    psi
                } else {
                    psi.push(Seq::empty())
                },
                VerifiedOpcode::Malloc { region, arity } => if region < f.regions.len()
                    && f.regions[region as int] < psi.len() && m.heap[f.regions[region as int] as int].cells.len()
                    < usize::MAX {
                    let r = f.regions[region as int] as int;
                    psi.update(
                        r,
                        psi[r].push(malloc_types(state_at(p, f.func as int, f.pc as nat))),
                    )
                } else {
                    psi
                },
                _ => psi,
            }
        }
    }
}

/// A verified program does not make a new-region opcode give up, and the
/// machine is in order behind it.
#[verifier::rlimit(40)]
proof fn lemma_sound_new_region(p: ProgramView, m: MachineView, psi: HeapTyping, op: VerifiedOpcode)
    requires
        ready(p, m, psi, op),
        op is NewRgn,
    ensures
        !(exec_spec(p.functions.len(), m, op).1 is Fault),
        machine_ok(p, exec_spec(p.functions.len(), m, op).0, next_typing(p, m, psi)),
{
    lemma_ready(p, m, psi, op);
    if m.heap.len() < usize::MAX && m.frames.last().regions.len() < usize::MAX {
        let f = m.frames.last();
        let s = state_at(p, f.func as int, f.pc as nat);
        let s2 = state_at(p, f.func as int, (f.pc + 1) as nat);
        let next = exec_spec(p.functions.len(), m, op).0;
        let g = next.frames.last();
        let heap2 = next.heap;
        let psi2 = psi.push(Seq::empty());
        let r = m.heap.len() as usize;
        assert(next_typing(p, m, psi) == psi2);
        assert(heap_grows(p, m.heap, psi, heap2, psi2)) by {
            assert forall|x: int| 0 <= x < m.heap.len() && (#[trigger] heap2[x]).live implies {
                &&& m.heap[x].live
                &&& m.heap[x].cells.len() <= heap2[x].cells.len()
                &&& forall|a: int|
                    0 <= a < m.heap[x].cells.len() ==> {
                        &&& (#[trigger] psi2[x][a]) == psi[x][a]
                        &&& heap2[x].cells[a].len() == m.heap[x].cells[a].len()
                        &&& cell_kept(p, m.heap[x].cells[a], heap2[x].cells[a], psi[x][a])
                    }
            } by {
                assert(heap2[x] == m.heap[x]);
                assert(psi2[x] == psi[x]);
            }
        }
        assert(heap_ok(heap2, psi2)) by {
            assert forall|x: int| 0 <= x < heap2.len() && (#[trigger] heap2[x]).live implies {
                &&& psi2[x].len() == heap2[x].cells.len()
                &&& heap2[x].cells.len() <= usize::MAX
                &&& forall|a: int|
                    0 <= a < heap2[x].cells.len() ==> (#[trigger] psi2[x][a]).len()
                        == heap2[x].cells[a].len()
            } by {
                if x < m.heap.len() {
                    assert(heap2[x] == m.heap[x]);
                    assert(psi2[x] == psi[x]);
                    assert(m.heap[x].live);
                }
            }
        }
        assert forall|j: int| 0 <= j < g.stack.len() implies value_ok(
            p,
            heap2,
            psi2,
            g.regions,
            #[trigger] g.stack[j],
            s2.tstack[j],
        ) by {
            if j < f.stack.len() {
                assert(g.stack[j] == f.stack[j]);
                assert(s2.tstack[j] == s.tstack[j]);
                lemma_value_stable(p, m.heap, psi, heap2, psi2, f.regions, f.stack[j], s.tstack[j]);
                lemma_value_more_regions(p, heap2, psi2, f.regions, r, f.stack[j], s.tstack[j]);
            } else {
                assert(s2.tstack[j] == StackType::Handle(f.regions.len() as usize));
                assert(g.regions[f.regions.len() as int] == r);
            }
        }
        assert forall|id: int| 0 <= id < g.regions.len() implies {
            &&& (#[trigger] g.regions[id]) < heap2.len()
            &&& s2.env[id] == CapState::Held ==> heap2[g.regions[id] as int].live
        } by {
            if id < f.regions.len() {
                assert(g.regions[id] == f.regions[id]);
                assert(heap2[f.regions[id] as int] == m.heap[f.regions[id] as int]);
            }
        }
        assert(frame_ok(p, heap2, psi2, g));
        lemma_change_heap(p, m, psi, g, heap2, psi2);
        assert(next.frames =~= m.frames.drop_last().push(g));
    }
}

/// A verified program does not make a free-region opcode give up, and the
/// machine is in order behind it.
#[verifier::rlimit(40)]
proof fn lemma_sound_free(p: ProgramView, m: MachineView, psi: HeapTyping, op: VerifiedOpcode)
    requires
        ready(p, m, psi, op),
        op is FreeRgn,
    ensures
        !(exec_spec(p.functions.len(), m, op).1 is Fault),
        machine_ok(p, exec_spec(p.functions.len(), m, op).0, psi),
{
    lemma_ready(p, m, psi, op);
    let f = m.frames.last();
    let s = state_at(p, f.func as int, f.pc as nat);
    let s2 = state_at(p, f.func as int, (f.pc + 1) as nat);
    let id = op->FreeRgn_region as int;
    assert(0 <= id < s.env.len() && s.env[id] == CapState::Held);
    let r = f.regions[id] as int;
    assert(m.heap[r].live);
    let next = exec_spec(p.functions.len(), m, op).0;
    let g = next.frames.last();
    let heap2 = next.heap;
    assert(heap2 =~= m.heap.update(r, RegionView { live: false, cells: Seq::empty() }));
    assert(heap_grows(p, m.heap, psi, heap2, psi)) by {
        assert forall|x: int| 0 <= x < m.heap.len() && (#[trigger] heap2[x]).live implies {
            &&& m.heap[x].live
            &&& m.heap[x].cells.len() <= heap2[x].cells.len()
            &&& forall|a: int|
                0 <= a < m.heap[x].cells.len() ==> {
                    &&& (#[trigger] psi[x][a]) == psi[x][a]
                    &&& heap2[x].cells[a].len() == m.heap[x].cells[a].len()
                    &&& cell_kept(p, m.heap[x].cells[a], heap2[x].cells[a], psi[x][a])
                }
        } by {
            assert(heap2[x] == m.heap[x]);
        }
    }
    assert(heap_ok(heap2, psi)) by {
        assert forall|x: int| 0 <= x < heap2.len() && (#[trigger] heap2[x]).live implies {
            &&& psi[x].len() == heap2[x].cells.len()
            &&& heap2[x].cells.len() <= usize::MAX
            &&& forall|a: int|
                0 <= a < heap2[x].cells.len() ==> (#[trigger] psi[x][a]).len()
                    == heap2[x].cells[a].len()
        } by {
            assert(heap2[x] == m.heap[x]);
            assert(m.heap[x].live);
        }
    }
    assert forall|j: int| 0 <= j < g.stack.len() implies value_ok(
        p,
        heap2,
        psi,
        g.regions,
        #[trigger] g.stack[j],
        s2.tstack[j],
    ) by {
        assert(g.stack[j] == f.stack[j]);
        assert(s2.tstack[j] == s.tstack[j]);
        lemma_value_stable(p, m.heap, psi, heap2, psi, f.regions, f.stack[j], s.tstack[j]);
    }
    assert forall|i: int| 0 <= i < g.regions.len() implies {
        &&& (#[trigger] g.regions[i]) < heap2.len()
        &&& s2.env[i] == CapState::Held ==> heap2[g.regions[i] as int].live
    } by {
        assert(g.regions[i] == f.regions[i]);
        if i != id {
            assert(region_of(m.frames, m.frames.len() - 1, i) != region_of(
                m.frames,
                m.frames.len() - 1,
                id,
            ));
            assert(heap2[f.regions[i] as int] == m.heap[f.regions[i] as int]);
        }
    }
    assert(frame_ok(p, heap2, psi, g));
    assert forall|x: int|
        0 <= x < m.heap.len() && (#[trigger] m.heap[x]).live && !heap2[x].live implies exists|i: int|
        0 <= i < m.frames.last().regions.len() && #[trigger] m.frames.last().regions[i] == x by {
        assert(x == r);
        assert(m.frames.last().regions[id] == x);
    }
    lemma_change_heap(p, m, psi, g, heap2, psi);
    assert(next.frames =~= m.frames.drop_last().push(g));
}

/// A verified program does not make an allocation give up, and the machine
/// is in order behind it.
#[verifier::rlimit(40)]
proof fn lemma_sound_malloc(p: ProgramView, m: MachineView, psi: HeapTyping, op: VerifiedOpcode)
    requires
        ready(p, m, psi, op),
        op is Malloc,
    ensures
        !(exec_spec(p.functions.len(), m, op).1 is Fault),
        machine_ok(p, exec_spec(p.functions.len(), m, op).0, next_typing(p, m, psi)),
{
    lemma_ready(p, m, psi, op);
    let f = m.frames.last();
    let s = state_at(p, f.func as int, f.pc as nat);
    let s2 = state_at(p, f.func as int, (f.pc + 1) as nat);
    let id = op->Malloc_region as int;
    let arity = op->Malloc_arity as nat;
    let cs = s.cstack;
    assert(cs.len() >= 2);
    assert(cs.drop_last().last() == cs[cs.len() - 2]);
    let types = cs[cs.len() - 2]->Type_0->Tuple_0;
    assert(malloc_types(s) == types@);
    assert(0 <= id < s.env.len() && s.env[id] == CapState::Held);
    assert(arity == types@.len());
    let r = f.regions[id] as int;
    assert(m.heap[r].live);
    let slot = m.heap[r];
    if slot.cells.len() < usize::MAX {
        let a = slot.cells.len() as int;
        let next = exec_spec(p.functions.len(), m, op).0;
        let g = next.frames.last();
        let heap2 = next.heap;
        let psi2 = psi.update(r, psi[r].push(types@));
        assert(next_typing(p, m, psi) == psi2);
        assert(heap2 =~= m.heap.update(
            r,
            RegionView { cells: slot.cells.push(zero_cell(arity)), ..slot },
        ));
        assert(heap_grows(p, m.heap, psi, heap2, psi2)) by {
            assert forall|x: int| 0 <= x < m.heap.len() && (#[trigger] heap2[x]).live implies {
                &&& m.heap[x].live
                &&& m.heap[x].cells.len() <= heap2[x].cells.len()
                &&& forall|c: int|
                    0 <= c < m.heap[x].cells.len() ==> {
                        &&& (#[trigger] psi2[x][c]) == psi[x][c]
                        &&& heap2[x].cells[c].len() == m.heap[x].cells[c].len()
                        &&& cell_kept(p, m.heap[x].cells[c], heap2[x].cells[c], psi[x][c])
                    }
            } by {
                if x != r {
                    assert(heap2[x] == m.heap[x]);
                    assert(psi2[x] == psi[x]);
                } else {
                    assert forall|c: int| 0 <= c < m.heap[x].cells.len() implies {
                        &&& (#[trigger] psi2[x][c]) == psi[x][c]
                        &&& heap2[x].cells[c].len() == m.heap[x].cells[c].len()
                        &&& cell_kept(p, m.heap[x].cells[c], heap2[x].cells[c], psi[x][c])
                    } by {
                        assert(heap2[x].cells[c] == m.heap[x].cells[c]);
                    }
                }
            }
        }
        assert(heap_ok(heap2, psi2)) by {
            assert forall|x: int| 0 <= x < heap2.len() && (#[trigger] heap2[x]).live implies {
                &&& psi2[x].len() == heap2[x].cells.len()
                &&& heap2[x].cells.len() <= usize::MAX
                &&& forall|c: int|
                    0 <= c < heap2[x].cells.len() ==> (#[trigger] psi2[x][c]).len()
                        == heap2[x].cells[c].len()
            } by {
                if x != r {
                    assert(heap2[x] == m.heap[x]);
                    assert(psi2[x] == psi[x]);
                    assert(m.heap[x].live);
                } else {
                    assert forall|c: int| 0 <= c < heap2[x].cells.len() implies (#[trigger] psi2[x][c]).len()
                        == heap2[x].cells[c].len() by {
                        if c < a {
                            assert(heap2[x].cells[c] == m.heap[x].cells[c]);
                            assert(psi2[x][c] == psi[x][c]);
                        }
                    }
                }
            }
        }
        FieldList::lemma_uninit(types);
        let fields = FieldList::uninit(types);
        assert(field_types(fields@) =~= types@);
        assert forall|j: int| 0 <= j < g.stack.len() implies value_ok(
            p,
            heap2,
            psi2,
            g.regions,
            #[trigger] g.stack[j],
            s2.tstack[j],
        ) by {
            if j < f.stack.len() {
                assert(g.stack[j] == f.stack[j]);
                assert(s2.tstack[j] == s.tstack[j]);
                lemma_value_stable(p, m.heap, psi, heap2, psi2, f.regions, f.stack[j], s.tstack[j]);
            } else {
                assert(s2.tstack[j] == StackType::TuplePtr(id as usize, fields));
                assert(g.stack[j] == Value::Ptr(r as usize, a as usize));
                assert(heap2[r].cells[a] == zero_cell(arity));
                assert(psi2[r][a] == types@);
                assert(cell_ok(p, zero_cell(arity), fields@));
            }
        }
        assert forall|i: int| 0 <= i < g.regions.len() implies {
            &&& (#[trigger] g.regions[i]) < heap2.len()
            &&& s2.env[i] == CapState::Held ==> heap2[g.regions[i] as int].live
        } by {
            assert(g.regions[i] == f.regions[i]);
            assert(s2.env[i] == CapState::Held ==> s.env[i] == CapState::Held);
            assert(heap2[f.regions[i] as int].live == m.heap[f.regions[i] as int].live);
        }
        assert(frame_ok(p, heap2, psi2, g));
        lemma_change_heap(p, m, psi, g, heap2, psi2);
        assert(next.frames =~= m.frames.drop_last().push(g));
    }
}

/// A verified program does not make the initialisation of a field give up,
/// and the machine is in order behind it.
#[verifier::rlimit(40)]
proof fn lemma_sound_init(p: ProgramView, m: MachineView, psi: HeapTyping, op: VerifiedOpcode)
    requires
        ready(p, m, psi, op),
        op is Init,
    ensures
        !(exec_spec(p.functions.len(), m, op).1 is Fault),
        machine_ok(p, exec_spec(p.functions.len(), m, op).0, psi),
{
    lemma_ready(p, m, psi, op);
    let f = m.frames.last();
    let s = state_at(p, f.func as int, f.pc as nat);
    let s2 = state_at(p, f.func as int, (f.pc + 1) as nat);
    let n = op->Init_0;
    let len = f.stack.len() as int;
    assert(len >= 2);
    let id = s.tstack[len - 2]->TuplePtr_0;
    let fields = s.tstack[len - 2]->TuplePtr_1;
    fields.lemma_type_at(n as nat);
    fields.lemma_set_init(n as nat);
    assert(n < fields@.len());
    let t = fields@[n as int].0;
    assert(s.tstack[len - 1] == StackType::Plain(t));
    assert(0 <= id < s.env.len() && s.env[id as int] == CapState::Held);
    let ptr = f.stack[len - 2];
    let val = f.stack[len - 1];
    assert(value_ok(p, m.heap, psi, f.regions, ptr, s.tstack[len - 2]));
    assert(value_ok(p, m.heap, psi, f.regions, val, s.tstack[len - 1]));
    let r = ptr->Ptr_0 as int;
    let a = ptr->Ptr_1 as int;
    assert(r == f.regions[id as int]);
    assert(m.heap[r].live);
    let slot = m.heap[r];
    let cell = slot.cells[a];
    assert(cell.len() == fields@.len());
    let next = exec_spec(p.functions.len(), m, op).0;
    let g = next.frames.last();
    let heap2 = next.heap;
    let cell2 = cell.update(n as int, val);
    assert(heap2 =~= m.heap.update(r, RegionView { cells: slot.cells.update(a, cell2), ..slot }));
    assert(psi[r][a][n as int] == t);
    assert(heap_grows(p, m.heap, psi, heap2, psi)) by {
        assert forall|x: int| 0 <= x < m.heap.len() && (#[trigger] heap2[x]).live implies {
            &&& m.heap[x].live
            &&& m.heap[x].cells.len() <= heap2[x].cells.len()
            &&& forall|c: int|
                0 <= c < m.heap[x].cells.len() ==> {
                    &&& (#[trigger] psi[x][c]) == psi[x][c]
                    &&& heap2[x].cells[c].len() == m.heap[x].cells[c].len()
                    &&& cell_kept(p, m.heap[x].cells[c], heap2[x].cells[c], psi[x][c])
                }
        } by {
            if x != r {
                assert(heap2[x] == m.heap[x]);
            } else {
                assert forall|c: int| 0 <= c < m.heap[x].cells.len() implies {
                    &&& (#[trigger] psi[x][c]) == psi[x][c]
                    &&& heap2[x].cells[c].len() == m.heap[x].cells[c].len()
                    &&& cell_kept(p, m.heap[x].cells[c], heap2[x].cells[c], psi[x][c])
                } by {
                    if c != a {
                        assert(heap2[x].cells[c] == m.heap[x].cells[c]);
                    } else {
                        assert(heap2[x].cells[c] == cell2);
                    }
                }
            }
        }
    }
    assert(heap_ok(heap2, psi)) by {
        assert forall|x: int| 0 <= x < heap2.len() && (#[trigger] heap2[x]).live implies {
            &&& psi[x].len() == heap2[x].cells.len()
            &&& heap2[x].cells.len() <= usize::MAX
            &&& forall|c: int|
                0 <= c < heap2[x].cells.len() ==> (#[trigger] psi[x][c]).len()
                    == heap2[x].cells[c].len()
        } by {
            if x != r {
                assert(heap2[x] == m.heap[x]);
                assert(m.heap[x].live);
            } else {
                assert forall|c: int| 0 <= c < heap2[x].cells.len() implies (#[trigger] psi[x][c]).len()
                    == heap2[x].cells[c].len() by {
                    if c != a {
                        assert(heap2[x].cells[c] == m.heap[x].cells[c]);
                    }
                }
            }
        }
    }
    let fields2 = fields.set_init(n as nat);
    assert(field_types(fields2@) =~= field_types(fields@));
    assert forall|j: int| 0 <= j < g.stack.len() implies value_ok(
        p,
        heap2,
        psi,
        g.regions,
        #[trigger] g.stack[j],
        s2.tstack[j],
    ) by {
        assert(g.stack[j] == f.stack[j]);
        if j < len - 2 {
            assert(s2.tstack[j] == s.tstack[j]);
            lemma_value_stable(p, m.heap, psi, heap2, psi, f.regions, f.stack[j], s.tstack[j]);
        } else {
            assert(s2.tstack[j] == StackType::TuplePtr(id, fields2));
            assert(heap2[r].cells[a] == cell2);
            assert forall|k: int| 0 <= k < fields2@.len() && (#[trigger] fields2@[k]).1 implies plain_ok(
                p,
                cell2[k],
                fields2@[k].0,
            ) by {
                if k != n {
                    assert(fields2@[k] == fields@[k]);
                }
            }
        }
    }
    assert forall|i: int| 0 <= i < g.regions.len() implies {
        &&& (#[trigger] g.regions[i]) < heap2.len()
        &&& s2.env[i] == CapState::Held ==> heap2[g.regions[i] as int].live
    } by {
        assert(g.regions[i] == f.regions[i]);
        assert(heap2[f.regions[i] as int].live == m.heap[f.regions[i] as int].live);
    }
    assert(frame_ok(p, heap2, psi, g));
    lemma_change_heap(p, m, psi, g, heap2, psi);
    assert(next.frames =~= m.frames.drop_last().push(g));
}

/// A verified program does not make the projection of a field give up, and
/// the machine is in order behind it.
proof fn lemma_sound_proj(p: ProgramView, m: MachineView, psi: HeapTyping, op: VerifiedOpcode)
    requires
        ready(p, m, psi, op),
        op is Proj,
    ensures
        !(exec_spec(p.functions.len(), m, op).1 is Fault),
        machine_ok(p, exec_spec(p.functions.len(), m, op).0, psi),
{
    lemma_ready(p, m, psi, op);
    let f = m.frames.last();
    let s = state_at(p, f.func as int, f.pc as nat);
    let s2 = state_at(p, f.func as int, (f.pc + 1) as nat);
    let n = op->Proj_0;
    let len = f.stack.len() as int;
    assert(len >= 1);
    let id = s.tstack[len - 1]->TuplePtr_0;
    let fields = s.tstack[len - 1]->TuplePtr_1;
    fields.lemma_type_at(n as nat);
    fields.lemma_all_init();
    assert(n < fields@.len());
    let t = fields@[n as int].0;
    assert(fields@[n as int].1);
    assert(0 <= id < s.env.len() && s.env[id as int] == CapState::Held);
    let ptr = f.stack[len - 1];
    assert(value_ok(p, m.heap, psi, f.regions, ptr, s.tstack[len - 1]));
    let r = ptr->Ptr_0 as int;
    let a = ptr->Ptr_1 as int;
    assert(r == f.regions[id as int]);
    assert(m.heap[r].live);
    let cell = m.heap[r].cells[a];
    assert(cell.len() == fields@.len());
    assert(plain_ok(p, cell[n as int], t));
    let next = exec_spec(p.functions.len(), m, op).0;
    let g = next.frames.last();
    assert forall|j: int| 0 <= j < g.stack.len() implies value_ok(
        p,
        m.heap,
        psi,
        g.regions,
        #[trigger] g.stack[j],
        s2.tstack[j],
    ) by {
        if j < len - 1 {
            assert(g.stack[j] == f.stack[j]);
            assert(s2.tstack[j] == s.tstack[j]);
        } else {
            assert(s2.tstack[j] == StackType::Plain(t));
            assert(g.stack[j] == cell[n as int]);
        }
    }
    assert(frame_ok(p, m.heap, psi, g));
    lemma_put_top(p, m, psi, g);
    assert(next.frames =~= m.frames.drop_last().push(g));
}

/// The stack of plain types has one type for each of the given types, the
/// same type in the same place.
proof fn lemma_plain_types(params: TypeList)
    ensures
        plain_types(params).len() == params@.len(),
        forall|j: int|
            0 <= j < params@.len() ==> (#[trigger] plain_types(params)[j]) == StackType::Plain(
                params@[j],
            ),
    decreases params,
{
    match params {
        TypeList::Nil => {},
        TypeList::Cons(t, rest) => {
            lemma_plain_types(*rest);
            assert forall|j: int| 0 <= j < params@.len() implies (#[trigger] plain_types(params)[j])
                == StackType::Plain(params@[j]) by {
                if j > 0 {
                    assert(plain_types(params)[j] == plain_types(*rest)[j - 1]);
                    assert(params@[j] == rest@[j - 1]);
                }
            }
        },
    }
}

/// Arguments that match the parameters have, place for place, the types of
/// the parameters.
proof fn lemma_args_match(ts: Seq<StackType>, at: int, params: TypeList)
    requires
        args_match(ts, at, params) is Ok,
    ensures
        forall|j: int|
            0 <= j < params@.len() ==> ts[at + j] == StackType::Plain(#[trigger] params@[j]),
    decreases params,
{
    match params {
        TypeList::Nil => {},
        TypeList::Cons(t, rest) => {
            lemma_args_match(ts, at + 1, *rest);
            assert forall|j: int| 0 <= j < params@.len() implies ts[at + j] == StackType::Plain(
                #[trigger] params@[j],
            ) by {
                if j > 0 {
                    assert(params@[j] == rest@[j - 1]);
                    assert(ts[at + 1 + (j - 1)] == StackType::Plain(rest@[j - 1]));
                }
            }
        },
    }
}

/// The machine stays in order when a frame without regions that holds what
/// its types say is put on top of the call stack.
proof fn lemma_push_frame(p: ProgramView, m: MachineView, psi: HeapTyping, callee: FrameView)
    requires
        machine_ok(p, m, psi),
        frame_ok(p, m.heap, psi, callee),
        callee.regions.len() == 0,
    ensures
        machine_ok(p, MachineView { frames: m.frames.push(callee), ..m }, psi),
{
    let frames2 = m.frames.push(callee);
    assert forall|k: int| 0 <= k < frames2.len() implies frame_ok(
        p,
        m.heap,
        psi,
        #[trigger] frames2[k],
    ) by {
        if k < m.frames.len() {
            assert(frames2[k] == m.frames[k]);
        }
    }
    assert forall|k1: int, i1: int, k2: int, i2: int|
        0 <= k1 < frames2.len() && 0 <= i1 < frames2[k1].regions.len() && 0 <= k2 < frames2.len()
            && 0 <= i2 < frames2[k2].regions.len() && (k1 != k2 || i1 != i2) implies #[trigger] region_of(
        frames2,
        k1,
        i1,
    ) != #[trigger] region_of(frames2, k2, i2) by {
        assert(frames2[k1] == m.frames[k1]);
        assert(frames2[k2] == m.frames[k2]);
        assert(region_of(m.frames, k1, i1) != region_of(m.frames, k2, i2));
    }
}

/// The arguments of a call are what the callee expects on its stack when it
/// starts.
proof fn lemma_callee_ok(
    p: ProgramView,
    heap: Seq<RegionView>,
    psi: HeapTyping,
    regions: Seq<usize>,
    stack: Seq<Value>,
    tstack: Seq<StackType>,
    at: int,
    i: u32,
)
    requires
        well_typed(p),
        i < p.functions.len(),
        i < p.table.len(),
        0 <= at,
        at + p.table[i as int].params@.len() + 1 == stack.len(),
        stack.len() == tstack.len(),
        args_match(tstack, at, p.table[i as int].params) is Ok,
        forall|j: int| 0 <= j < stack.len() ==> value_ok(p, heap, psi, regions, #[trigger] stack[j], tstack[j]),
    ensures
        frame_ok(
            p,
            heap,
            psi,
            FrameView {
                func: i as usize,
                pc: 0,
                stack: stack.subrange(at, stack.len() - 1),
                regions: Seq::empty(),
            },
        ),
{
    let params = p.table[i as int].params;
    let callee = FrameView {
        func: i as usize,
        pc: 0,
        stack: stack.subrange(at, stack.len() - 1),
        regions: Seq::empty(),
    };
    lemma_args_match(tstack, at, params);
    lemma_states(p, i as int);
    lemma_plain_types(params);
    let s0 = state_at(p, i as int, 0);
    assert(s0 == entry_state(params));
    assert forall|j: int| 0 <= j < callee.stack.len() implies value_ok(
        p,
        heap,
        psi,
        callee.regions,
        #[trigger] callee.stack[j],
        s0.tstack[j],
    ) by {
        assert(callee.stack[j] == stack[at + j]);
        assert(tstack[at + j] == StackType::Plain(params@[j]));
        assert(value_ok(p, heap, psi, regions, stack[at + j], tstack[at + j]));
    }
}

/// A verified program does not make a call give up, and the machine is in
/// order behind it.
#[verifier::rlimit(40)]
proof fn lemma_sound_call(p: ProgramView, m: MachineView, psi: HeapTyping, op: VerifiedOpcode)
    requires
        ready(p, m, psi, op),
        op is Call,
    ensures
        !(exec_spec(p.functions.len(), m, op).1 is Fault),
        machine_ok(p, exec_spec(p.functions.len(), m, op).0, psi),
{
    lemma_ready(p, m, psi, op);
    let f = m.frames.last();
    let s = state_at(p, f.func as int, f.pc as nat);
    let s2 = state_at(p, f.func as int, (f.pc + 1) as nat);
    let argc = op->Call_argc as int;
    let len = f.stack.len() as int;
    assert(len >= 1);
    let ft = *s.tstack[len - 1]->Plain_0->Func_0;
    assert(argc == ft.params@.len());
    assert(len - 1 >= argc);
    let at = len - 1 - argc;
    let callee_value = f.stack[len - 1];
    assert(value_ok(p, m.heap, psi, f.regions, callee_value, s.tstack[len - 1]));
    let i = callee_value->Func_0;
    assert(p.table[i as int] == ft);
    if m.frames.len() < m.max_depth {
        let next = exec_spec(p.functions.len(), m, op).0;
        let caller = FrameView { pc: (f.pc + 1) as usize, stack: f.stack.take(at), ..f };
        let callee = FrameView {
            func: i as usize,
            pc: 0,
            stack: f.stack.subrange(at, len - 1),
            regions: Seq::empty(),
        };
        assert(next.frames == m.frames.drop_last().push(caller).push(callee));
        assert(s2.tstack == s.tstack.take(at));
        assert forall|j: int| 0 <= j < caller.stack.len() implies value_ok(
            p,
            m.heap,
            psi,
            caller.regions,
            #[trigger] caller.stack[j],
            s2.tstack[j],
        ) by {
            assert(caller.stack[j] == f.stack[j]);
            assert(s2.tstack[j] == s.tstack[j]);
        }
        assert(frame_ok(p, m.heap, psi, caller));
        lemma_put_top(p, m, psi, caller);
        let mid = MachineView { frames: m.frames.drop_last().push(caller), ..m };
        lemma_callee_ok(p, m.heap, psi, f.regions, f.stack, s.tstack, at, i);
        lemma_push_frame(p, mid, psi, callee);
    }
}

/// No region belongs to two frames, or twice to one, when the innermost
/// frame is dropped.
proof fn lemma_distinct_drop(frames: Seq<FrameView>)
    requires
        regions_distinct(frames),
        frames.len() > 0,
    ensures
        regions_distinct(frames.drop_last()),
{
    let rest = frames.drop_last();
    assert forall|k1: int, i1: int, k2: int, i2: int|
        0 <= k1 < rest.len() && 0 <= i1 < rest[k1].regions.len() && 0 <= k2 < rest.len() && 0
            <= i2 < rest[k2].regions.len() && (k1 != k2 || i1 != i2) implies #[trigger] region_of(
        rest,
        k1,
        i1,
    ) != #[trigger] region_of(rest, k2, i2) by {
        assert(rest[k1] == frames[k1]);
        assert(rest[k2] == frames[k2]);
        assert(region_of(frames, k1, i1) != region_of(frames, k2, i2));
    }
}

/// The machine stays in order when its innermost frame is dropped.
proof fn lemma_drop_top(p: ProgramView, m: MachineView, psi: HeapTyping)
    requires
        machine_ok(p, m, psi),
        m.frames.len() > 0,
    ensures
        machine_ok(p, MachineView { frames: m.frames.drop_last(), ..m }, psi),
{
    let rest = m.frames.drop_last();
    assert forall|k: int| 0 <= k < rest.len() implies frame_ok(p, m.heap, psi, #[trigger] rest[k]) by {
        assert(rest[k] == m.frames[k]);
    }
    lemma_distinct_drop(m.frames);
}

/// A verified program leaves nothing on the value stack at the end of a
/// function, and the machine is in order behind the return.
proof fn lemma_sound_return(p: ProgramView, m: MachineView, psi: HeapTyping)
    requires
        machine_ok(p, m, psi),
        m.frames.len() > 0,
        m.frames.last().func < p.functions.len(),
        m.frames.last().pc >= p.functions[m.frames.last().func as int].code.len(),
    ensures
        m.frames.last().stack.len() == 0,
        !(return_spec(m).1 is Fault),
        machine_ok(p, return_spec(m).0, psi),
{
    let f = m.frames.last();
    assert(f == m.frames[m.frames.len() - 1]);
    assert(frame_ok(p, m.heap, psi, f));
    lemma_states(p, f.func as int);
    assert(f.stack.len() == 0);
    lemma_drop_top(p, m, psi);
    assert(return_spec(m).0 == MachineView { frames: m.frames.drop_last(), ..m });
}

/// The machine starts in order on a well-typed program.
pub proof fn lemma_start_ok(p: ProgramView, max_depth: usize)
    requires
        well_typed(p),
        program_fits(p),
    ensures
        machine_ok(p, start_view(p.functions.len(), max_depth), Seq::empty()),
{
    let m = start_view(p.functions.len(), max_depth);
    if p.functions.len() > 0 {
        lemma_states(p, 0);
        let f = m.frames[0];
        assert(state_at(p, 0, 0).tstack =~= Seq::<StackType>::empty());
        assert(frame_ok(p, m.heap, Seq::empty(), f));
    }
}

/// Soundness. A machine that is in order does not give up at its next step,
/// and is in order behind it: a verified program never takes a value from
/// an empty stack, never touches a region that has been freed, and never
/// finds a value, a function, a tuple or a field other than its types say.
pub proof fn lemma_step_sound(p: ProgramView, m: MachineView, psi: HeapTyping)
    requires
        machine_ok(p, m, psi),
    ensures
        !(vm_step(p, m).1 is Fault),
        machine_ok(p, vm_step(p, m).0, next_typing(p, m, psi)),
{
    if m.frames.len() > 0 {
        let f = m.frames.last();
        assert(f == m.frames[m.frames.len() - 1]);
        assert(frame_ok(p, m.heap, psi, f));
        let code = p.functions[f.func as int].code;
        if f.pc >= code.len() {
            lemma_sound_return(p, m, psi);
        } else {
            let op = code[f.pc as int];
            match op {
                VerifiedOpcode::Static(_) => lemma_sound_static(p, m, psi, op),
                VerifiedOpcode::Lit(_) => lemma_sound_push(p, m, psi, op),
                VerifiedOpcode::GlobalFunc(_) => lemma_sound_push(p, m, psi, op),
                VerifiedOpcode::Get(_) => lemma_sound_push(p, m, psi, op),
                VerifiedOpcode::Print => lemma_sound_print_halt(p, m, psi, op),
                VerifiedOpcode::Halt(_) => lemma_sound_print_halt(p, m, psi, op),
                VerifiedOpcode::Pack => lemma_sound_pack(p, m, psi, op),
                VerifiedOpcode::Unpack => lemma_sound_pack(p, m, psi, op),
                VerifiedOpcode::NewRgn => lemma_sound_new_region(p, m, psi, op),
                VerifiedOpcode::FreeRgn { .. } => lemma_sound_free(p, m, psi, op),
                VerifiedOpcode::Malloc { .. } => lemma_sound_malloc(p, m, psi, op),
                VerifiedOpcode::Init(_) => lemma_sound_init(p, m, psi, op),
                VerifiedOpcode::Proj(_) => lemma_sound_proj(p, m, psi, op),
                VerifiedOpcode::Call { .. } => lemma_sound_call(p, m, psi, op),
            }
        }
    }
}

} // verus!
