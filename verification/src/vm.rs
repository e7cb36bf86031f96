//! The machine: it runs the functions of a verified program on a stack of
//! frames and a heap of regions, one opcode at a time.

use crate::sound::HeapTyping;
use crate::sound::lemma_start_ok;
use crate::sound::lemma_step_sound;
use crate::sound::machine_ok;
use crate::sound::next_typing;
use crate::verify::ProgramView;
use crate::verify::VerifiedOpcode;
use crate::verify::VerifiedProgram;
use vstd::prelude::*;

verus! {

/// What the machine computes with.
#[derive(Debug, PartialEq, Eq)]
pub enum Value {
    /// A 32-bit integer.
    Int(i32),
    /// A pointer to a tuple: the number of its region, and the number of the
    /// tuple among the tuples of that region.
    Ptr(usize, usize),
    /// A function, by its index.
    Func(u32),
    /// The handle of the region with this number.
    Handle(usize),
    /// A value packed into an existential type.
    Packed(Box<Value>),
}

impl Clone for Value {
    fn clone(&self) -> (res: Self)
        ensures
            res == *self,
        decreases self,
    {
        match self {
            Value::Int(i) => Value::Int(*i),
            Value::Ptr(r, a) => Value::Ptr(*r, *a),
            Value::Func(i) => Value::Func(*i),
            Value::Handle(r) => Value::Handle(*r),
            Value::Packed(v) => Value::Packed(Box::new((&**v).clone())),
        }
    }
}

/// Why the machine gives up. None of these happens to a verified program.
#[derive(Clone, Copy, Debug, PartialEq, Eq, Structural)]
pub enum Fault {
    /// The value stack holds fewer values than the opcode takes.
    StackUnderflow,
    /// The opcode touches a region that has been freed.
    FreedRegion,
    /// A value is of another kind than the opcode takes.
    BadValue,
    /// No function, region, tuple or field has the number.
    BadIndex,
}

/// What a step of the machine amounts to.
#[derive(Debug, PartialEq, Eq)]
pub enum Event {
    /// An opcode ran; there is more to do.
    Continue,
    /// A print opcode ran: the value is to be written out.
    Printed(Value),
    /// A halt opcode ran: the machine has stopped with this status code.
    Halted(u8),
    /// The function that the program started with has come to its end.
    Finished,
    /// The machine has run out of room: a call would make the call stack
    /// deeper than the machine allows, or the heap cannot hold another region
    /// or another tuple.
    Exhausted,
    /// The machine gives up.
    Fault(Fault),
}

/// A region of the heap.
#[derive(Debug)]
pub struct RegionSlot {
    /// Whether the region has not been freed.
    pub live: bool,
    /// The tuples of the region, each a vector of its fields.
    pub cells: Vec<Vec<Value>>,
}

/// A region as a specification sees it.
pub struct RegionView {
    pub live: bool,
    pub cells: Seq<Seq<Value>>,
}

/// The activation of a function.
#[derive(Debug)]
pub struct Frame {
    /// The index of the function.
    pub func: usize,
    /// The offset of the opcode that runs next.
    pub pc: usize,
    /// The value stack; the top is the last value.
    pub stack: Vec<Value>,
    /// The regions that the activation has created, in order: the number of
    /// each in the heap.
    pub regions: Vec<usize>,
}

/// A frame as a specification sees it.
pub struct FrameView {
    pub func: usize,
    pub pc: usize,
    pub stack: Seq<Value>,
    pub regions: Seq<usize>,
}

/// The state of a machine as a specification sees it: the call stack, the
/// innermost frame last; the heap; and how deep the call stack may get.
pub struct MachineView {
    pub frames: Seq<FrameView>,
    pub heap: Seq<RegionView>,
    pub max_depth: usize,
}

/// The tuples of a region as sequences.
pub open spec fn cells_view(cells: Seq<Vec<Value>>) -> Seq<Seq<Value>> {
    cells.map_values(|c: Vec<Value>| c@)
}

impl View for RegionSlot {
    type V = RegionView;

    open spec fn view(&self) -> RegionView {
        RegionView { live: self.live, cells: cells_view(self.cells@) }
    }
}

impl View for Frame {
    type V = FrameView;

    open spec fn view(&self) -> FrameView {
        FrameView { func: self.func, pc: self.pc, stack: self.stack@, regions: self.regions@ }
    }
}

/// The frames of a call stack as a specification sees them.
pub open spec fn frames_view(frames: Seq<Frame>) -> Seq<FrameView> {
    frames.map_values(|f: Frame| f@)
}

/// The regions of a heap as a specification sees them.
pub open spec fn heap_view(heap: Seq<RegionSlot>) -> Seq<RegionView> {
    heap.map_values(|r: RegionSlot| r@)
}

/// The state in which a machine starts on a program with `count` functions:
/// one frame for the first function, where there is one, and an empty heap.
pub open spec fn start_view(count: nat, max_depth: usize) -> MachineView {
    MachineView {
        frames: if count > 0 {
            seq![FrameView { func: 0, pc: 0, stack: Seq::empty(), regions: Seq::empty() }]
        } else {
            Seq::empty()
        },
        heap: Seq::empty(),
        max_depth,
    }
}

/// The machine with its innermost frame replaced.
pub open spec fn put(m: MachineView, f: FrameView) -> MachineView {
    MachineView { frames: m.frames.drop_last().push(f), ..m }
}

/// The machine with its innermost frame replaced and one region replaced.
pub open spec fn put_both(m: MachineView, f: FrameView, r: int, region: RegionView) -> MachineView {
    MachineView { frames: m.frames.drop_last().push(f), heap: m.heap.update(r, region), ..m }
}

/// A freshly allocated tuple with `arity` fields: every field is zero.
pub open spec fn zero_cell(arity: nat) -> Seq<Value> {
    Seq::new(arity, |i: int| Value::Int(0))
}

/// What the machine does at the end of the innermost function: the frame is
/// dropped, and the value on top of its stack, if there is one, goes to the
/// caller. Where there is no caller the machine has finished.
pub open spec fn return_spec(m: MachineView) -> (MachineView, Event) {
    let f = m.frames.last();
    let rest = m.frames.drop_last();
    if rest.len() == 0 {
        (MachineView { frames: rest, ..m }, Event::Finished)
    } else if f.stack.len() == 0 {
        (MachineView { frames: rest, ..m }, Event::Continue)
    } else {
        let caller = rest.last();
        (
            MachineView {
                frames: rest.drop_last().push(
                    FrameView { stack: caller.stack.push(f.stack.last()), ..caller },
                ),
                ..m
            },
            Event::Continue,
        )
    }
}

/// The region that a pointer or a region number of the innermost frame
/// leads to, or the fault that it leads to.
pub open spec fn region_at(m: MachineView, r: usize) -> Result<RegionView, Fault> {
    if r >= m.heap.len() {
        Err(Fault::BadIndex)
    } else if !m.heap[r as int].live {
        Err(Fault::FreedRegion)
    } else {
        Ok(m.heap[r as int])
    }
}

/// What the opcode `op` makes of the machine, run in the innermost frame of
/// a program with `count` functions. A fault leaves the machine as it was.
pub open spec fn exec_spec(count: nat, m: MachineView, op: VerifiedOpcode) -> (MachineView, Event) {
    let f = m.frames.last();
    let len = f.stack.len();
    let g = FrameView { pc: (f.pc + 1) as usize, ..f };
    match op {
        VerifiedOpcode::Static(_) => (put(m, g), Event::Continue),
        VerifiedOpcode::Lit(i) => (
            put(m, FrameView { stack: f.stack.push(Value::Int(i)), ..g }),
            Event::Continue,
        ),
        VerifiedOpcode::GlobalFunc(i) => (
            put(m, FrameView { stack: f.stack.push(Value::Func(i)), ..g }),
            Event::Continue,
        ),
        VerifiedOpcode::Get(n) => if n < len {
            (put(m, FrameView { stack: f.stack.push(f.stack[len - 1 - n]), ..g }), Event::Continue)
        } else {
            (m, Event::Fault(Fault::StackUnderflow))
        },
        VerifiedOpcode::Print => if len > 0 {
            (put(m, g), Event::Printed(f.stack.last()))
        } else {
            (m, Event::Fault(Fault::StackUnderflow))
        },
        VerifiedOpcode::Halt(code) => (
            MachineView { frames: Seq::empty(), ..m },
            Event::Halted(code),
        ),
        VerifiedOpcode::Pack => if len > 0 {
            (
                put(
                    m,
                    FrameView {
                        stack: f.stack.drop_last().push(Value::Packed(Box::new(f.stack.last()))),
                        ..g
                    },
                ),
                Event::Continue,
            )
        } else {
            (m, Event::Fault(Fault::StackUnderflow))
        },
        VerifiedOpcode::Unpack => if len > 0 {
            match f.stack.last() {
                Value::Packed(inner) => (
                    put(m, FrameView { stack: f.stack.drop_last().push(*inner), ..g }),
                    Event::Continue,
                ),
                _ => (m, Event::Fault(Fault::BadValue)),
            }
        } else {
            (m, Event::Fault(Fault::StackUnderflow))
        },
        VerifiedOpcode::NewRgn => if m.heap.len() >= usize::MAX || f.regions.len() >= usize::MAX {
            (m, Event::Exhausted)
        } else {
            let r = m.heap.len() as usize;
            (
                MachineView {
                    frames: m.frames.drop_last().push(
                        FrameView {
                            stack: f.stack.push(Value::Handle(r)),
                            regions: f.regions.push(r),
                            ..g
                        },
                    ),
                    heap: m.heap.push(RegionView { live: true, cells: Seq::empty() }),
                    ..m
                },
                Event::Continue,
            )
        },
        VerifiedOpcode::FreeRgn { region } => if region >= f.regions.len() {
            (m, Event::Fault(Fault::BadIndex))
        } else {
            let r = f.regions[region as int];
            match region_at(m, r) {
                Err(k) => (m, Event::Fault(k)),
                Ok(_) => (
                    put_both(m, g, r as int, RegionView { live: false, cells: Seq::empty() }),
                    Event::Continue,
                ),
            }
        },
        VerifiedOpcode::Malloc { region, arity } => if region >= f.regions.len() {
            (m, Event::Fault(Fault::BadIndex))
        } else {
            let r = f.regions[region as int];
            match region_at(m, r) {
                Err(k) => (m, Event::Fault(k)),
                Ok(slot) => if slot.cells.len() >= usize::MAX {
                    (m, Event::Exhausted)
                } else {
                    (
                        put_both(
                            m,
                            FrameView {
                                stack: f.stack.push(Value::Ptr(r, slot.cells.len() as usize)),
                                ..g
                            },
                            r as int,
                            RegionView { cells: slot.cells.push(zero_cell(arity as nat)), ..slot },
                        ),
                        Event::Continue,
                    )
                },
            }
        },
        VerifiedOpcode::Init(n) => if len < 2 {
            (m, Event::Fault(Fault::StackUnderflow))
        } else {
            match f.stack[len - 2] {
                Value::Ptr(r, a) => match region_at(m, r) {
                    Err(k) => (m, Event::Fault(k)),
                    Ok(slot) => if a >= slot.cells.len() || n >= slot.cells[a as int].len() {
                        (m, Event::Fault(Fault::BadIndex))
                    } else {
                        (
                            put_both(
                                m,
                                FrameView { stack: f.stack.drop_last(), ..g },
                                r as int,
                                RegionView {
                                    cells: slot.cells.update(
                                        a as int,
                                        slot.cells[a as int].update(n as int, f.stack.last()),
                                    ),
                                    ..slot
                                },
                            ),
                            Event::Continue,
                        )
                    },
                },
                _ => (m, Event::Fault(Fault::BadValue)),
            }
        },
        VerifiedOpcode::Proj(n) => if len < 1 {
            (m, Event::Fault(Fault::StackUnderflow))
        } else {
            match f.stack.last() {
                Value::Ptr(r, a) => match region_at(m, r) {
                    Err(k) => (m, Event::Fault(k)),
                    Ok(slot) => if a >= slot.cells.len() || n >= slot.cells[a as int].len() {
                        (m, Event::Fault(Fault::BadIndex))
                    } else {
                        (
                            put(
                                m,
                                FrameView {
                                    stack: f.stack.drop_last().push(slot.cells[a as int][n as int]),
                                    ..g
                                },
                            ),
                            Event::Continue,
                        )
                    },
                },
                _ => (m, Event::Fault(Fault::BadValue)),
            }
        },
        VerifiedOpcode::Call { argc } => if len < 1 {
            (m, Event::Fault(Fault::StackUnderflow))
        } else {
            match f.stack.last() {
                Value::Func(i) => if i >= count {
                    (m, Event::Fault(Fault::BadIndex))
                } else if len - 1 < argc {
                    (m, Event::Fault(Fault::StackUnderflow))
                } else if m.frames.len() >= m.max_depth {
                    (m, Event::Exhausted)
                } else {
                    (
                        MachineView {
                            frames: m.frames.drop_last().push(
                                FrameView { stack: f.stack.take(len - 1 - argc), ..g },
                            ).push(
                                FrameView {
                                    func: i as usize,
                                    pc: 0,
                                    stack: f.stack.subrange(len - 1 - argc, len - 1),
                                    regions: Seq::empty(),
                                },
                            ),
                            ..m
                        },
                        Event::Continue,
                    )
                },
                _ => (m, Event::Fault(Fault::BadValue)),
            }
        },
    }
}

/// What one step makes of the machine, and what the step amounts to.
///
/// Without a frame the machine has finished. At the end of the innermost
/// function the machine returns from it. Otherwise the opcode at the cursor
/// of the innermost frame runs.
pub open spec fn vm_step(p: ProgramView, m: MachineView) -> (MachineView, Event) {
    if m.frames.len() == 0 {
        (m, Event::Finished)
    } else {
        let f = m.frames.last();
        if f.func >= p.functions.len() {
            (m, Event::Fault(Fault::BadIndex))
        } else {
            let code = p.functions[f.func as int].code;
            if f.pc >= code.len() {
                return_spec(m)
            } else {
                exec_spec(p.functions.len(), m, code[f.pc as int])
            }
        }
    }
}

/// The machine state that a call stack and a heap make up.
pub open spec fn machine_view(frames: Seq<Frame>, heap: Seq<RegionSlot>, max_depth: usize) -> MachineView {
    MachineView { frames: frames_view(frames), heap: heap_view(heap), max_depth }
}

/// Makes a tuple with `arity` fields, every field zero.
fn new_cell(arity: usize) -> (cell: Vec<Value>)
    ensures
        cell@ == zero_cell(arity as nat),
{
    let mut cell: Vec<Value> = Vec::new();
    let mut i: usize = 0;
    while i < arity
        invariant
            i <= arity,
            cell@ == zero_cell(i as nat),
        decreases arity - i,
    {
        cell.push(Value::Int(0));
        i += 1;
        assert(cell@ =~= zero_cell(i as nat));
    }
    cell
}

/// Looks a region up as `region_at` does.
fn check_region(heap: &Vec<RegionSlot>, r: usize, Ghost(m): Ghost<MachineView>) -> (res: Result<
    (),
    Fault,
>)
    requires
        m.heap == heap_view(heap@),
    ensures
        match res {
            Ok(_) => region_at(m, r) == Ok::<_, Fault>(heap@[r as int]@) && r < heap@.len(),
            Err(k) => region_at(m, r) == Err::<RegionView, _>(k),
        },
{
    if r >= heap.len() {
        Err(Fault::BadIndex)
    } else if !heap[r].live {
        Err(Fault::FreedRegion)
    } else {
        Ok(())
    }
}

/// Runs the return from the innermost function, as `return_spec` has it.
fn do_return(frames: &mut Vec<Frame>, Ghost(heap): Ghost<Seq<RegionSlot>>, max_depth: usize) -> (event:
    Event)
    requires
        old(frames)@.len() > 0,
    ensures
        (machine_view(final(frames)@, heap, max_depth), event) == return_spec(
            machine_view(old(frames)@, heap, max_depth),
        ),
{
    let ghost before = frames_view(frames@);
    let mut done = frames.pop().unwrap();
    assert(frames_view(frames@) =~= before.drop_last());
    assert(done@ == before.last());
    if frames.len() == 0 {
        return Event::Finished;
    }
    match done.stack.pop() {
        None => Event::Continue,
        Some(v) => {
            let ghost rest = frames_view(frames@);
            let mut caller = frames.pop().unwrap();
            assert(frames_view(frames@) =~= rest.drop_last());
            caller.stack.push(v);
            frames.push(caller);
            assert(frames_view(frames@) =~= rest.drop_last().push(
                FrameView { stack: rest.last().stack.push(v), ..rest.last() },
            ));
            Event::Continue
        },
    }
}

/// Runs one opcode in the innermost frame, as `exec_spec` has it.
#[verifier::rlimit(40)]
fn exec_op(
    count: usize,
    max_depth: usize,
    frames: &mut Vec<Frame>,
    heap: &mut Vec<RegionSlot>,
    op: VerifiedOpcode,
) -> (event: Event)
    requires
        old(frames)@.len() > 0,
        old(frames)@.last().pc < usize::MAX,
    ensures
        (machine_view(final(frames)@, final(heap)@, max_depth), event) == exec_spec(
            count as nat,
            machine_view(old(frames)@, old(heap)@, max_depth),
            op,
        ),
{
    let ghost m = machine_view(frames@, heap@, max_depth);
    let ghost below = frames_view(frames@).drop_last();
    let depth = frames.len();
    let mut frame = frames.pop().unwrap();
    let ghost f = frame@;
    assert(frames_view(frames@) =~= below);
    assert(f == m.frames.last());
    let len = frame.stack.len();
    let mut event = Event::Continue;
    let mut moved = true;
    match op {
        VerifiedOpcode::Static(_) => {},
        VerifiedOpcode::Lit(i) => {
            frame.stack.push(Value::Int(i));
        },
        VerifiedOpcode::GlobalFunc(i) => {
            frame.stack.push(Value::Func(i));
        },
        VerifiedOpcode::Get(n) => {
            if (n as usize) < len {
                let copy = frame.stack[len - 1 - n as usize].clone();
                frame.stack.push(copy);
            } else {
                event = Event::Fault(Fault::StackUnderflow);
                moved = false;
            }
        },
        VerifiedOpcode::Print => {
            if len > 0 {
                event = Event::Printed(frame.stack[len - 1].clone());
            } else {
                event = Event::Fault(Fault::StackUnderflow);
                moved = false;
            }
        },
        VerifiedOpcode::Halt(code) => {
            frames.clear();
            assert(frames_view(frames@) =~= Seq::<FrameView>::empty());
            return Event::Halted(code);
        },
        VerifiedOpcode::Pack => {
            match frame.stack.pop() {
                Some(v) => {
                    frame.stack.push(Value::Packed(Box::new(v)));
                },
                None => {
                    event = Event::Fault(Fault::StackUnderflow);
                    moved = false;
                },
            }
        },
        VerifiedOpcode::Unpack => {
            if len > 0 {
                let inner = match &frame.stack[len - 1] {
                    Value::Packed(inner) => Some((&**inner).clone()),
                    _ => None,
                };
                match inner {
                    Some(v) => {
                        frame.stack.pop();
                        frame.stack.push(v);
                    },
                    None => {
                        event = Event::Fault(Fault::BadValue);
                        moved = false;
                    },
                }
            } else {
                event = Event::Fault(Fault::StackUnderflow);
                moved = false;
            }
        },
        VerifiedOpcode::NewRgn => {
            let r = heap.len();
            if r == usize::MAX || frame.regions.len() == usize::MAX {
                event = Event::Exhausted;
                moved = false;
            } else {
                heap.push(RegionSlot { live: true, cells: Vec::new() });
                frame.regions.push(r);
                frame.stack.push(Value::Handle(r));
                assert(heap_view(heap@) =~= m.heap.push(
                    RegionView { live: true, cells: Seq::empty() },
                )) by {
                    assert(cells_view(Seq::<Vec<Value>>::empty()) =~= Seq::<Seq<Value>>::empty());
                }
            }
        },
        VerifiedOpcode::FreeRgn { region } => {
            if region >= frame.regions.len() {
                event = Event::Fault(Fault::BadIndex);
                moved = false;
            } else {
                let r = frame.regions[region];
                match check_region(heap, r, Ghost(m)) {
                    Err(k) => {
                        event = Event::Fault(k);
                        moved = false;
                    },
                    Ok(_) => {
                        heap.set(r, RegionSlot { live: false, cells: Vec::new() });
                        assert(heap_view(heap@) =~= m.heap.update(
                            r as int,
                            RegionView { live: false, cells: Seq::empty() },
                        )) by {
                            assert(cells_view(Seq::<Vec<Value>>::empty()) =~= Seq::<
                                Seq<Value>,
                            >::empty());
                        }
                    },
                }
            }
        },
        VerifiedOpcode::Malloc { region, arity } => {
            if region >= frame.regions.len() {
                event = Event::Fault(Fault::BadIndex);
                moved = false;
            } else {
                let r = frame.regions[region];
                match check_region(heap, r, Ghost(m)) {
                    Err(k) => {
                        event = Event::Fault(k);
                        moved = false;
                    },
                    Ok(_) => {
                        let a = heap[r].cells.len();
                        assert(heap@[r as int]@.cells.len() == a);
                        if a == usize::MAX {
                            event = Event::Exhausted;
                            moved = false;
                        } else {
                            let ghost slot = heap@[r as int]@;
                            let cell = new_cell(arity);
                            heap[r].cells.push(cell);
                            frame.stack.push(Value::Ptr(r, a));
                            assert(heap@[r as int]@.cells =~= slot.cells.push(
                                zero_cell(arity as nat),
                            ));
                            assert(heap_view(heap@) =~= m.heap.update(
                                r as int,
                                RegionView {
                                    cells: slot.cells.push(zero_cell(arity as nat)),
                                    ..slot
                                },
                            ));
                        }
                    },
                }
            }
        },
        VerifiedOpcode::Init(n) => {
            if len < 2 {
                event = Event::Fault(Fault::StackUnderflow);
                moved = false;
            } else {
                match frame.stack[len - 2] {
                    Value::Ptr(r, a) => {
                        match check_region(heap, r, Ghost(m)) {
                            Err(k) => {
                                event = Event::Fault(k);
                                moved = false;
                            },
                            Ok(_) => {
                                let ghost slot = heap@[r as int]@;
                                if a >= heap[r].cells.len() {
                                    event = Event::Fault(Fault::BadIndex);
                                    moved = false;
                                } else if (n as usize) >= heap[r].cells[a].len() {
                                    assert(slot.cells[a as int] == heap@[r as int].cells@[a as int]@);
                                    event = Event::Fault(Fault::BadIndex);
                                    moved = false;
                                } else {
                                    assert(slot.cells[a as int] == heap@[r as int].cells@[a as int]@);
                                    let v = frame.stack.pop().unwrap();
                                    heap[r].cells[a][n as usize] = v;
                                    assert(heap@[r as int]@.cells =~= slot.cells.update(
                                        a as int,
                                        slot.cells[a as int].update(n as int, v),
                                    ));
                                    assert(heap_view(heap@) =~= m.heap.update(
                                        r as int,
                                        RegionView {
                                            cells: slot.cells.update(
                                                a as int,
                                                slot.cells[a as int].update(n as int, v),
                                            ),
                                            ..slot
                                        },
                                    ));
                                }
                            },
                        }
                    },
                    _ => {
                        event = Event::Fault(Fault::BadValue);
                        moved = false;
                    },
                }
            }
        },
        VerifiedOpcode::Proj(n) => {
            if len < 1 {
                event = Event::Fault(Fault::StackUnderflow);
                moved = false;
            } else {
                match frame.stack[len - 1] {
                    Value::Ptr(r, a) => {
                        match check_region(heap, r, Ghost(m)) {
                            Err(k) => {
                                event = Event::Fault(k);
                                moved = false;
                            },
                            Ok(_) => {
                                let ghost slot = heap@[r as int]@;
                                if a >= heap[r].cells.len() {
                                    event = Event::Fault(Fault::BadIndex);
                                    moved = false;
                                } else if (n as usize) >= heap[r].cells[a].len() {
                                    assert(slot.cells[a as int] == heap@[r as int].cells@[a as int]@);
                                    event = Event::Fault(Fault::BadIndex);
                                    moved = false;
                                } else {
                                    assert(slot.cells[a as int] == heap@[r as int].cells@[a as int]@);
                                    let v = heap[r].cells[a][n as usize].clone();
                                    frame.stack.pop();
                                    frame.stack.push(v);
                                }
                            },
                        }
                    },
                    _ => {
                        event = Event::Fault(Fault::BadValue);
                        moved = false;
                    },
                }
            }
        },
        VerifiedOpcode::Call { argc } => {
            if len < 1 {
                event = Event::Fault(Fault::StackUnderflow);
                moved = false;
            } else {
                match frame.stack[len - 1] {
                    Value::Func(i) => {
                        if i as usize >= count {
                            event = Event::Fault(Fault::BadIndex);
                            moved = false;
                        } else if len - 1 < argc {
                            event = Event::Fault(Fault::StackUnderflow);
                            moved = false;
                        } else if depth >= max_depth {
                            event = Event::Exhausted;
                            moved = false;
                        } else {
                            frame.stack.pop();
                            let args = frame.stack.split_off(len - 1 - argc);
                            frame.pc = frame.pc + 1;
                            let callee = Frame {
                                func: i as usize,
                                pc: 0,
                                stack: args,
                                regions: Vec::new(),
                            };
                            assert(frame@.stack =~= f.stack.take(len - 1 - argc));
                            assert(callee@.stack =~= f.stack.subrange(len - 1 - argc, len - 1));
                            frames.push(frame);
                            frames.push(callee);
                            assert(frames_view(frames@) =~= below.push(
                                FrameView {
                                    pc: (f.pc + 1) as usize,
                                    stack: f.stack.take(len - 1 - argc),
                                    ..f
                                },
                            ).push(
                                FrameView {
                                    func: i as usize,
                                    pc: 0,
                                    stack: f.stack.subrange(len - 1 - argc, len - 1),
                                    regions: Seq::empty(),
                                },
                            ));
                            return Event::Continue;
                        }
                    },
                    _ => {
                        event = Event::Fault(Fault::BadValue);
                        moved = false;
                    },
                }
            }
        },
    }
    if moved {
        frame.pc = frame.pc + 1;
    }
    frames.push(frame);
    assert(frames_view(frames@) =~= below.push(frame@));
    assert(!moved ==> frames_view(frames@) =~= m.frames && heap_view(heap@) =~= m.heap);
    event
}

/// A machine on a verified program. At every step it is in order: its
/// frames and its heap hold what the types of the program say.
pub struct Machine {
    program: VerifiedProgram,
    frames: Vec<Frame>,
    heap: Vec<RegionSlot>,
    max_depth: usize,
    typing: Ghost<HeapTyping>,
}

impl View for Machine {
    type V = MachineView;

    closed spec fn view(&self) -> MachineView {
        machine_view(self.frames@, self.heap@, self.max_depth)
    }
}

impl Machine {
    /// The program that the machine runs.
    pub closed spec fn program(&self) -> ProgramView {
        self.program@
    }

    #[verifier::type_invariant]
    spec fn wf(&self) -> bool {
        machine_ok(self.program@, self@, self.typing@)
    }

    /// A machine that is about to run the first function of the program,
    /// with an empty heap. Its call stack holds at most `max_depth` frames.
    pub fn new(program: VerifiedProgram, max_depth: usize) -> (m: Machine)
        ensures
            m@ == start_view(program@.functions.len(), max_depth),
            m.program() == program@,
    {
        let mut frames: Vec<Frame> = Vec::new();
        let fs = program.functions();
        let count = fs.len();
        proof {
            assert forall|i: int| 0 <= i < program@.functions.len() implies (
            #[trigger] program@.functions[i]).code.len() <= usize::MAX by {
                assert(program@.functions[i] == fs@[i]@);
                assert(fs@[i].code.len() == fs@[i].code@.len());
            }
            lemma_start_ok(program@, max_depth);
        }
        if count > 0 {
            frames.push(Frame { func: 0, pc: 0, stack: Vec::new(), regions: Vec::new() });
        }
        let heap: Vec<RegionSlot> = Vec::new();
        proof {
            assert(count == program@.functions.len());
            assert(heap_view(heap@) =~= Seq::<RegionView>::empty());
            if count > 0 {
                assert(frames@[0]@ == FrameView {
                    func: 0,
                    pc: 0,
                    stack: Seq::empty(),
                    regions: Seq::empty(),
                });
                assert(frames_view(frames@) =~= seq![frames@[0]@]);
            } else {
                assert(frames_view(frames@) =~= Seq::<FrameView>::empty());
            }
        }
        Machine { program, frames, heap, max_depth, typing: Ghost(Seq::empty()) }
    }

    /// How many frames the call stack holds.
    pub fn depth(&self) -> (d: usize)
        ensures
            d == self@.frames.len(),
    {
        self.frames.len()
    }

    /// Runs one step: the opcode at the cursor of the innermost frame, or the
    /// return from the innermost function at its end. The machine never
    /// gives up.
    pub fn step(self) -> (res: (Machine, Event))
        ensures
            (res.0@, res.1) == vm_step(self.program(), self@),
            res.0.program() == self.program(),
            !(res.1 is Fault),
    {
        let ghost p = self.program@;
        let ghost before = self@;
        let ghost psi = self.typing@;
        proof {
            use_type_invariant(&self);
            lemma_step_sound(p, before, psi);
        }
        let Machine { program, frames, heap, max_depth, typing } = self;
        let mut frames = frames;
        let mut heap = heap;
        let mut event = Event::Finished;
        if frames.len() > 0 {
            let top = frames.len() - 1;
            let func = frames[top].func;
            let pc = frames[top].pc;
            assert(frames_view(frames@).last() == frames@[top as int]@);
            let functions = program.functions();
            let count = functions.len();
            if func >= count {
                event = Event::Fault(Fault::BadIndex);
            } else {
                assert(p.functions[func as int] == functions@[func as int]@);
                if pc >= functions[func].code.len() {
                    event = do_return(&mut frames, Ghost(heap@), max_depth);
                } else {
                    let op = functions[func].code[pc];
                    event = exec_op(count, max_depth, &mut frames, &mut heap, op);
                }
            }
        }
        (
            Machine { program, frames, heap, max_depth, typing: Ghost(next_typing(p, before, psi)) },
            event,
        )
    }
}

/// How a run of the machine ended.
#[derive(Clone, Copy, Debug, PartialEq, Eq, Structural)]
pub enum Status {
    /// A halt opcode stopped the machine with this status code.
    Halted(u8),
    /// The function that the program started with came to its end.
    Finished,
    /// The machine ran out of room.
    Exhausted,
    /// The machine ran as many steps as it was allowed.
    OutOfSteps,
    /// The machine gave up. This does not happen.
    Fault(Fault),
}

/// What a run of the machine amounts to: how it ended, and the values that
/// it printed, in order.
#[derive(Debug, PartialEq, Eq)]
pub struct Outcome {
    pub status: Status,
    pub output: Vec<Value>,
}

/// What a run of at most `steps` steps amounts to, from the machine state
/// `m` on and with `output` printed so far.
pub open spec fn run_spec(p: ProgramView, m: MachineView, steps: nat, output: Seq<Value>) -> (
    Status,
    Seq<Value>,
)
    decreases steps,
{
    if steps == 0 {
        (Status::OutOfSteps, output)
    } else {
        let (next, event) = vm_step(p, m);
        match event {
            Event::Continue => run_spec(p, next, (steps - 1) as nat, output),
            Event::Printed(v) => run_spec(p, next, (steps - 1) as nat, output.push(v)),
            Event::Halted(code) => (Status::Halted(code), output),
            Event::Finished => (Status::Finished, output),
            Event::Exhausted => (Status::Exhausted, output),
            Event::Fault(k) => (Status::Fault(k), output),
        }
    }
}

/// Runs a verified program from its first function on, for at most
/// `max_steps` steps and with a call stack of at most `max_depth` frames.
/// The run never ends in a fault.
pub fn go(program: VerifiedProgram, max_depth: usize, max_steps: usize) -> (out: Outcome)
    ensures
        (out.status, out.output@) == run_spec(
            program@,
            start_view(program@.functions.len(), max_depth),
            max_steps as nat,
            Seq::empty(),
        ),
        !(out.status is Fault),
{
    let ghost p = program@;
    let ghost start = start_view(program@.functions.len(), max_depth);
    let mut machine = Machine::new(program, max_depth);
    let mut output: Vec<Value> = Vec::new();
    let mut left: usize = max_steps;
    while left > 0
        invariant
            machine.program() == p,
            p == program@,
            start == start_view(program@.functions.len(), max_depth),
            run_spec(p, start, max_steps as nat, Seq::empty()) == run_spec(
                p,
                machine@,
                left as nat,
                output@,
            ),
        decreases left,
    {
        let ghost stepped = vm_step(p, machine@);
        assert(run_spec(p, machine@, left as nat, output@) == match stepped.1 {
            Event::Continue => run_spec(p, stepped.0, (left - 1) as nat, output@),
            Event::Printed(v) => run_spec(p, stepped.0, (left - 1) as nat, output@.push(v)),
            Event::Halted(code) => (Status::Halted(code), output@),
            Event::Finished => (Status::Finished, output@),
            Event::Exhausted => (Status::Exhausted, output@),
            Event::Fault(k) => (Status::Fault(k), output@),
        });
        let (next, event) = machine.step();
        machine = next;
        left = left - 1;
        match event {
            Event::Continue => {},
            Event::Printed(v) => {
                output.push(v);
            },
            Event::Halted(code) => {
                return Outcome { status: Status::Halted(code), output };
            },
            Event::Finished => {
                return Outcome { status: Status::Finished, output };
            },
            Event::Exhausted => {
                return Outcome { status: Status::Exhausted, output };
            },
            Event::Fault(k) => {
                return Outcome { status: Status::Fault(k), output };
            },
        }
    }
    Outcome { status: Status::OutOfSteps, output }
}

} // verus!
