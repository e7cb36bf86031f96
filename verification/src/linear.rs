//! Capabilities are linear: one that has been used up, or whose region has
//! been freed, never comes back.

use crate::header::UnverifiedOpcode;
use crate::header::VerifyErrorKind;
use crate::sound::state_after;
use crate::types::Entry;
use crate::types::FuncType;
use crate::types::Region;
use crate::types::Type;
use crate::types::CapState;
use crate::verify::StateView;
use crate::verify::VerifiedOpcode;
use crate::verify::malloc_spec;
use crate::verify::step_spec;
use vstd::prelude::*;

verus! {

/// An allocation with an exclusive capability uses the capability up.
pub proof fn lemma_exclusive_is_spent(s: StateView)
    requires
        malloc_spec(s) is Ok,
        s.cstack.last() matches Entry::Cap(c) && c.rights.level() >= 2,
    ensures
        s.cstack.last()->Cap_0.region matches Region::Local(id) && id < s.env.len()
            && malloc_spec(s)->Ok_0.0.env.len() == s.env.len() && malloc_spec(s)->Ok_0.0.env[id as int]
            == CapState::Consumed,
{
}

/// No opcode gives a capability back: what is not held before an opcode is
/// not held behind it, and is what it was.
pub proof fn lemma_spent_stays_spent(
    table: Seq<FuncType>,
    count: nat,
    s: StateView,
    op: UnverifiedOpcode,
    pc: nat,
    id: int,
)
    requires
        0 <= id < s.env.len(),
        s.env[id] != CapState::Held,
        step_spec(table, count, s, op, pc) is Ok,
    ensures
        id < step_spec(table, count, s, op, pc)->Ok_0.0.env.len(),
        step_spec(table, count, s, op, pc)->Ok_0.0.env[id] == s.env[id],
{
}

/// An allocation with a capability that has been used up is refused as a
/// violation of linearity, whatever rights it claims. The tuple type names
/// no region that has been freed.
pub proof fn lemma_spent_refuses(s: StateView, id: usize)
    requires
        s.cstack.len() >= 2,
        s.cstack.last() matches Entry::Cap(c) && c.region == Region::Local(id) && c.rights.level()
            >= 1,
        s.cstack[s.cstack.len() - 2] matches Entry::Type(Type::Tuple(_)),
        !s.cstack[s.cstack.len() - 2].names_freed(s.env),
        id < s.env.len(),
        s.env[id as int] == CapState::Consumed,
    ensures
        malloc_spec(s) == Err::<(StateView, VerifiedOpcode), _>(
            VerifyErrorKind::CapabilityLinearity,
        ),
{
    assert(s.cstack.drop_last().last() == s.cstack[s.cstack.len() - 2]);
}

/// What is not held stays so along any run of opcodes that are accepted.
pub proof fn lemma_spent_along(
    table: Seq<FuncType>,
    count: nat,
    s0: StateView,
    body: Seq<UnverifiedOpcode>,
    k: nat,
    id: int,
)
    requires
        0 <= id < s0.env.len(),
        s0.env[id] != CapState::Held,
        state_after(table, count, s0, body, k) is Some,
    ensures
        id < state_after(table, count, s0, body, k)->Some_0.env.len(),
        state_after(table, count, s0, body, k)->Some_0.env[id] == s0.env[id],
    decreases k,
{
    if k > 0 {
        lemma_spent_along(table, count, s0, body, (k - 1) as nat, id);
        let s = state_after(table, count, s0, body, (k - 1) as nat)->Some_0;
        lemma_spent_stays_spent(table, count, s, body[k - 1], (k - 1) as nat, id);
    }
}

/// One exclusive capability does not allocate twice. After an allocation
/// with an exclusive capability for a region, and after any opcodes that
/// are accepted behind it, a further allocation with a capability for that
/// region is refused as a violation of linearity. The further allocation is
/// one of a tuple type that names no region that has been freed.
pub proof fn lemma_unique_allocates_once(
    table: Seq<FuncType>,
    count: nat,
    s: StateView,
    body: Seq<UnverifiedOpcode>,
    k: nat,
)
    requires
        malloc_spec(s) is Ok,
        s.cstack.last() matches Entry::Cap(c) && c.rights.level() >= 2,
        state_after(table, count, malloc_spec(s)->Ok_0.0, body, k) matches Some(later) && {
            &&& later.cstack.len() >= 2
            &&& later.cstack.last() matches Entry::Cap(c2) && c2.region
                == s.cstack.last()->Cap_0.region && c2.rights.level() >= 1
            &&& later.cstack[later.cstack.len() - 2] matches Entry::Type(Type::Tuple(_))
            &&& !later.cstack[later.cstack.len() - 2].names_freed(later.env)
        },
    ensures
        malloc_spec(state_after(table, count, malloc_spec(s)->Ok_0.0, body, k)->Some_0) == Err::<
            (StateView, VerifiedOpcode),
            _,
        >(VerifyErrorKind::CapabilityLinearity),
{
    lemma_exclusive_is_spent(s);
    let id = s.cstack.last()->Cap_0.region->Local_0;
    let s1 = malloc_spec(s)->Ok_0.0;
    lemma_spent_along(table, count, s1, body, k, id as int);
    lemma_spent_refuses(state_after(table, count, s1, body, k)->Some_0, id);
}

} // verus!
