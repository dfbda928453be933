use vstd::prelude::*;

use crate::error::Error;

verus! {

/// One extracted record: the node's name and the node's target field
/// expressed as a 32-bit offset relative to the module base.
#[derive(Debug)]
pub struct Button {
    pub name: String,
    pub value: u32,
}

/// Mathematical image of a record: the name as its character sequence.
pub ghost struct ButtonV {
    pub name: Seq<char>,
    pub value: u32,
}

impl View for Button {
    type V = ButtonV;

    open spec fn view(&self) -> ButtonV {
        ButtonV { name: self.name@, value: self.value }
    }
}

/// The images of a sequence of records.
pub open spec fn button_views(s: Seq<Button>) -> Seq<ButtonV> {
    s.map_values(|b: Button| b@)
}

/// The relative value recorded for a node: the node's address minus the
/// module base, plus the fixed byte offset of the target field inside the
/// node, truncated to 32 bits (the arithmetic wraps modulo 2^32).
pub open spec fn record_value(node_addr: u64, base: u64, field_off: u64) -> u32 {
    (((node_addr - base) + field_off) % 0x1_0000_0000) as u32
}

/// Computes `record_value` with 64-bit wrapping arithmetic.
pub fn node_record_value(node_addr: u64, base: u64, field_off: u64) -> (v: u32)
    ensures
        v == record_value(node_addr, base, field_off),
{
    let d: u64 = node_addr.wrapping_sub(base).wrapping_add(field_off);
    proof {
        let x = (node_addr - base) + field_off;
        if d != x {
            if d == x + 0x1_0000_0000_0000_0000 {
                vstd::arithmetic::div_mod::lemma_mod_multiples_vanish(
                    0x1_0000_0000,
                    x,
                    0x1_0000_0000,
                );
            } else {
                vstd::arithmetic::div_mod::lemma_mod_multiples_vanish(
                    -0x1_0000_0000,
                    x,
                    0x1_0000_0000,
                );
            }
        }
    }
    (d % 0x1_0000_0000) as u32
}

/// The recorded value depends only on the node's position relative to the
/// module base: two nodes at the same relative position in differently
/// based images yield the same value.
pub proof fn lemma_value_is_relative(a1: u64, b1: u64, a2: u64, b2: u64, field_off: u64)
    requires
        a1 - b1 == a2 - b2,
    ensures
        record_value(a1, b1, field_off) == record_value(a2, b2, field_off),
{
}

/// What the remote side answered to the reads for one node: either the
/// node's name and next-node reference, or a typed read failure.
pub enum WalkEvent {
    /// The node and its name string were read successfully.
    Node { name: String, next: u64 },
    /// A read at the given remote address failed.
    ReadFailed { addr: u64 },
    /// The name string ran past its length bound without a terminator.
    BadString,
}

/// Mathematical image of a walk event.
pub ghost enum WalkEventV {
    Node { name: Seq<char>, next: u64 },
    ReadFailed { addr: u64 },
    BadString,
}

impl View for WalkEvent {
    type V = WalkEventV;

    open spec fn view(&self) -> WalkEventV {
        match self {
            WalkEvent::Node { name, next } => WalkEventV::Node { name: name@, next: *next },
            WalkEvent::ReadFailed { addr } => WalkEventV::ReadFailed { addr: *addr },
            WalkEvent::BadString => WalkEventV::BadString,
        }
    }
}

/// The traversal's state: about to read the node at `cur` with `steps`
/// nodes already consumed, finished with the records in link order, or
/// failed with a terminal error.
pub enum WalkState {
    Reading { cur: u64, steps: u64, records: Vec<Button> },
    Done { records: Vec<Button> },
    Failed { error: Error },
}

/// Mathematical image of the traversal's state.
pub ghost enum WalkStateV {
    Reading { cur: u64, steps: u64, records: Seq<ButtonV> },
    Done { records: Seq<ButtonV> },
    Failed { error: Error },
}

impl View for WalkState {
    type V = WalkStateV;

    open spec fn view(&self) -> WalkStateV {
        match self {
            WalkState::Reading { cur, steps, records } => WalkStateV::Reading {
                cur: *cur,
                steps: *steps,
                records: button_views(records@),
            },
            WalkState::Done { records } => WalkStateV::Done { records: button_views(records@) },
            WalkState::Failed { error } => WalkStateV::Failed { error: *error },
        }
    }
}

/// The state a traversal begins in, given the pointer value read from the
/// resolved head address. A null head yields the empty result at once; it
/// is not a failure.
pub open spec fn spec_start(head: u64, cap: u64) -> WalkStateV {
    if head == 0 {
        WalkStateV::Done { records: Seq::empty() }
    } else if cap == 0 {
        WalkStateV::Failed { error: Error::TraversalOverflow }
    } else {
        WalkStateV::Reading { cur: head, steps: 0, records: Seq::empty() }
    }
}

/// One transition of the traversal: consume the answer to the reads for the
/// current node. On a successful node read the record is appended with its
/// relative value; a null next-reference finishes the walk; reaching the
/// iteration cap with more nodes ahead fails with `TraversalOverflow`;
/// a failed read fails with the matching error. Terminal states absorb.
pub open spec fn spec_step(
    s: WalkStateV,
    ev: WalkEventV,
    base: u64,
    field_off: u64,
    cap: u64,
) -> WalkStateV {
    match s {
        WalkStateV::Reading { cur, steps, records } => match ev {
            WalkEventV::Node { name, next } => {
                let recs = records.push(ButtonV { name, value: record_value(cur, base, field_off) });
                if next == 0 {
                    WalkStateV::Done { records: recs }
                } else if steps + 1 >= cap {
                    WalkStateV::Failed { error: Error::TraversalOverflow }
                } else {
                    WalkStateV::Reading { cur: next, steps: (steps + 1) as u64, records: recs }
                }
            },
            WalkEventV::ReadFailed { addr } => WalkStateV::Failed { error: Error::Unreadable(addr) },
            WalkEventV::BadString => WalkStateV::Failed { error: Error::MalformedString },
        },
        _ => s,
    }
}

/// The state after consuming a whole sequence of events in order.
pub open spec fn spec_run(
    s: WalkStateV,
    evs: Seq<WalkEventV>,
    base: u64,
    field_off: u64,
    cap: u64,
) -> WalkStateV
    decreases evs.len(),
{
    if evs.len() == 0 {
        s
    } else {
        spec_run(spec_step(s, evs[0], base, field_off, cap), evs.drop_first(), base, field_off, cap)
    }
}

/// Every state the traversal can reach keeps its step count under the cap.
pub open spec fn walk_wf(s: WalkStateV, cap: u64) -> bool {
    s matches WalkStateV::Reading { steps, .. } ==> steps < cap
}

pub proof fn lemma_start_wf(head: u64, cap: u64)
    ensures
        walk_wf(spec_start(head, cap), cap),
{
}

pub proof fn lemma_step_preserves_wf(s: WalkStateV, ev: WalkEventV, base: u64, field_off: u64, cap: u64)
    requires
        walk_wf(s, cap),
    ensures
        walk_wf(spec_step(s, ev, base, field_off, cap), cap),
{
}

/// Builds the traversal's first state from the pointer value read at the
/// resolved head address. A null head gives the empty result, no failure.
pub fn walk_start(head: u64, cap: u64) -> (s: WalkState)
    ensures
        s@ == spec_start(head, cap),
        head == 0 ==> (s matches WalkState::Done { records } && records@.len() == 0),
{
    proof {
        assert(button_views(Seq::<Button>::empty()) =~= Seq::<ButtonV>::empty());
    }
    if head == 0 {
        WalkState::Done { records: Vec::new() }
    } else if cap == 0 {
        WalkState::Failed { error: Error::TraversalOverflow }
    } else {
        WalkState::Reading { cur: head, steps: 0, records: Vec::new() }
    }
}

/// Performs one traversal transition; behaves exactly as `spec_step`.
pub fn walk_step(s: WalkState, ev: WalkEvent, base: u64, field_off: u64, cap: u64) -> (r: WalkState)
    ensures
        r@ == spec_step(s@, ev@, base, field_off, cap),
{
    match s {
        WalkState::Reading { cur, steps, mut records } => match ev {
            WalkEvent::Node { name, next } => {
                let value = node_record_value(cur, base, field_off);
                let ghost recs0 = records@;
                let b = Button { name, value };
                let ghost bv = b@;
                records.push(b);
                proof {
                    assert(button_views(records@) =~= button_views(recs0).push(bv));
                }
                if next == 0 {
                    WalkState::Done { records }
                } else if cap == 0 || steps >= cap - 1 {
                    WalkState::Failed { error: Error::TraversalOverflow }
                } else {
                    WalkState::Reading { cur: next, steps: steps + 1, records }
                }
            },
            WalkEvent::ReadFailed { addr } => WalkState::Failed { error: Error::Unreadable(addr) },
            WalkEvent::BadString => WalkState::Failed { error: Error::MalformedString },
        },
        WalkState::Done { records } => WalkState::Done { records },
        WalkState::Failed { error } => WalkState::Failed { error },
    }
}

/// A terminal state absorbs every further event.
pub proof fn lemma_run_terminal(s: WalkStateV, evs: Seq<WalkEventV>, base: u64, field_off: u64, cap: u64)
    requires
        !(s is Reading),
    ensures
        spec_run(s, evs, base, field_off, cap) == s,
    decreases evs.len(),
{
    if evs.len() > 0 {
        lemma_run_terminal(s, evs.drop_first(), base, field_off, cap);
    }
}

/// An event whose next-node reference keeps the traversal going.
pub open spec fn event_continues(ev: WalkEventV) -> bool {
    ev matches WalkEventV::Node { next, .. } && next != 0
}

/// A traversal that never meets a null next-reference — a cyclic or
/// endless structure — fails with `TraversalOverflow` once the iteration
/// cap is reached, rather than running on.
pub proof fn lemma_endless_walk_overflows(
    s: WalkStateV,
    evs: Seq<WalkEventV>,
    base: u64,
    field_off: u64,
    cap: u64,
)
    requires
        s is Reading,
        walk_wf(s, cap),
        forall|i: int| 0 <= i < evs.len() ==> event_continues(#[trigger] evs[i]),
        evs.len() + s->steps >= cap,
    ensures
        spec_run(s, evs, base, field_off, cap) == (WalkStateV::Failed {
            error: Error::TraversalOverflow,
        }),
    decreases evs.len(),
{
    let s1 = spec_step(s, evs[0], base, field_off, cap);
    let rest = evs.drop_first();
    assert(forall|i: int| 0 <= i < rest.len() ==> event_continues(#[trigger] rest[i]));
    if s->steps + 1 >= cap {
        lemma_run_terminal(s1, rest, base, field_off, cap);
    } else {
        lemma_endless_walk_overflows(s1, rest, base, field_off, cap);
    }
}

/// A null head pointer yields the empty record sequence, not a failure.
pub proof fn lemma_null_head_is_empty(cap: u64)
    ensures
        spec_start(0, cap) == (WalkStateV::Done { records: Seq::<ButtonV>::empty() }),
{
}

} // verus!
