//! The hardware-breakpoint table and its projection onto a thread's debug
//! registers.

use vstd::prelude::*;

use crate::context::ThreadContext;
use crate::context::RESUME_FLAG;

verus! {

/// A populated breakpoint slot. The identifier of a breakpoint is the
/// position of its slot and never changes while the breakpoint lives.
#[derive(Debug, Default, Clone, Copy, PartialEq, Eq, Structural)]
pub struct Breakpoint {
    pub addr: u64,
    id: usize,
}

impl Breakpoint {
    /// The breakpoint as a pair: the slot that holds it, and its address.
    pub closed spec fn view(&self) -> (int, u64) {
        (self.id as int, self.addr)
    }

    /// The slot that holds this breakpoint.
    pub fn id(&self) -> (id: usize)
        ensures
            id == self@.0,
    {
        self.id
    }

    /// The address that this breakpoint guards.
    pub fn address(&self) -> (addr: u64)
        ensures
            addr == self@.1,
    {
        self.addr
    }
}

pub struct BreakpointManager {
    breakpoints: [Option<Breakpoint>; 4],
}

/// The populated slots among the first `upto` slots of a table, in slot
/// order, each with its identifier and the address that it holds.
pub open spec fn populated_upto(slots: Seq<Option<u64>>, upto: int) -> Seq<(int, u64)>
    decreases upto,
{
    if upto <= 0 {
        Seq::empty()
    } else if let Some(addr) = slots[upto - 1] {
        populated_upto(slots, upto - 1).push((upto - 1, addr))
    } else {
        populated_upto(slots, upto - 1)
    }
}

/// The populated slots of a table, in slot order.
pub open spec fn populated(slots: Seq<Option<u64>>) -> Seq<(int, u64)> {
    populated_upto(slots, slots.len() as int)
}

/// The lowest empty slot of a table at or after `from`, if there is one.
pub open spec fn lowest_empty_from(slots: Seq<Option<u64>>, from: int) -> Option<int>
    decreases slots.len() - from,
{
    if from < 0 || from >= slots.len() {
        None
    } else if slots[from] is None {
        Some(from)
    } else {
        lowest_empty_from(slots, from + 1)
    }
}

/// Which breakpoint the debug status register reports: the lowest of its four
/// low bits that is set.
pub open spec fn dr6_hit(dr6: u64) -> Option<u32> {
    if dr6 & 1 != 0 {
        Some(0u32)
    } else if dr6 & 2 != 0 {
        Some(1u32)
    } else if dr6 & 4 != 0 {
        Some(2u32)
    } else if dr6 & 8 != 0 {
        Some(3u32)
    } else {
        None
    }
}

/// The debug control register after slot `slot` has been projected onto it.
///
/// A populated slot gets its local-enable bit (bit `2 * slot`) set and its
/// four condition and length bits (from bit `16 + 4 * slot`) cleared, which
/// asks for a one-byte execution breakpoint. An empty slot gets its
/// local-enable bit cleared.
pub open spec fn dr7_with_slot(dr7: u64, slot: u64, populated: bool) -> u64 {
    if populated {
        (dr7 & !(0xfu64 << (slot * 4 + 16))) | (1u64 << (slot * 2))
    } else {
        dr7 & !(1u64 << (slot * 2))
    }
}

/// The debug control register after all four slots have been projected.
pub open spec fn dr7_with_slots(dr7: u64, slots: Seq<Option<u64>>) -> u64 {
    dr7_with_slot(
        dr7_with_slot(
            dr7_with_slot(dr7_with_slot(dr7, 0, slots[0] is Some), 1, slots[1] is Some),
            2,
            slots[2] is Some,
        ),
        3,
        slots[3] is Some,
    )
}

/// The address register of one slot after projection: the breakpoint's
/// address where the slot is populated, its old value otherwise.
pub open spec fn address_register(old_value: u64, slot: Option<u64>) -> u64 {
    match slot {
        Some(addr) => addr,
        None => old_value,
    }
}

/// A thread's registers after the table `slots` has been projected onto them.
/// `resuming` says whether the thread is the one that is about to step off
/// the instruction it stopped at.
pub open spec fn applied(ctx: ThreadContext, slots: Seq<Option<u64>>, resuming: bool)
    -> ThreadContext {
    ThreadContext {
        dr0: address_register(ctx.dr0, slots[0]),
        dr1: address_register(ctx.dr1, slots[1]),
        dr2: address_register(ctx.dr2, slots[2]),
        dr3: address_register(ctx.dr3, slots[3]),
        dr7: dr7_with_slots(ctx.dr7, slots),
        eflags: if resuming {
            ctx.eflags | RESUME_FLAG
        } else {
            ctx.eflags
        },
        ..ctx
    }
}

impl BreakpointManager {
    #[verifier::type_invariant]
    spec fn slots_keep_their_ids(&self) -> bool {
        forall|i: int|
            0 <= i < 4 ==> match #[trigger] self.breakpoints[i] {
                Some(bp) => bp.id == i,
                None => true,
            }
    }

    /// The table as a sequence of four slots, each empty or holding the
    /// address of its breakpoint.
    pub closed spec fn view(&self) -> Seq<Option<u64>> {
        Seq::new(
            4,
            |i: int|
                match self.breakpoints[i] {
                    Some(bp) => Some(bp.addr),
                    None => None,
                },
        )
    }

    pub fn new() -> (manager: BreakpointManager)
        ensures
            manager@ == Seq::new(4, |i: int| None::<u64>),
    {
        let manager = BreakpointManager { breakpoints: [None, None, None, None] };
        assert(manager@ =~= Seq::new(4, |i: int| None::<u64>));
        manager
    }

    /// Places a breakpoint in the lowest empty slot and returns the slot, or
    /// returns `None` and changes nothing when all four slots are in use.
    pub fn add_breakpoint(&mut self, addr: u64) -> (id: Option<usize>)
        ensures
            final(self)@.len() == 4,
            match lowest_empty_from(old(self)@, 0) {
                Some(slot) => id == Some(slot as usize) && final(self)@ == old(self)@.update(
                    slot,
                    Some(addr),
                ),
                None => id is None && final(self)@ == old(self)@,
            },
    {
        proof {
            use_type_invariant(&*self);
        }
        let mut i: usize = 0;
        while i < 4
            invariant
                0 <= i <= 4,
                *self == *old(self),
                self.slots_keep_their_ids(),
                lowest_empty_from(old(self)@, 0) == lowest_empty_from(old(self)@, i as int),
            decreases 4 - i,
        {
            if self.breakpoints[i].is_none() {
                self.breakpoints[i] = Some(Breakpoint { addr, id: i });
                assert(self@ =~= old(self)@.update(i as int, Some(addr)));
                return Some(i);
            }
            i += 1;
        }
        None
    }

    /// The populated slots, in slot order.
    pub fn list_breakpoints(&self) -> (list: Vec<Breakpoint>)
        ensures
            list@.map_values(|bp: Breakpoint| bp@) == populated(self@),
    {
        proof {
            use_type_invariant(self);
        }
        let mut list: Vec<Breakpoint> = Vec::new();
        let mut i: usize = 0;
        assert(list@.map_values(|bp: Breakpoint| bp@) =~= populated_upto(self@, 0));
        while i < 4
            invariant
                0 <= i <= 4,
                self.slots_keep_their_ids(),
                list@.map_values(|bp: Breakpoint| bp@) == populated_upto(self@, i as int),
            decreases 4 - i,
        {
            if let Some(bp) = self.breakpoints[i] {
                let ghost before = list@;
                list.push(bp);
                assert(list@.map_values(|bp: Breakpoint| bp@) =~= before.map_values(
                    |bp: Breakpoint| bp@,
                ).push((i as int, bp.addr)));
            }
            i += 1;
        }
        list
    }

    /// The table has four slots.
    pub proof fn lemma_four_slots(&self)
        ensures
            self@.len() == 4,
    {
    }

    /// Empties a slot. The other slots keep their breakpoints and their
    /// identifiers; an identifier that names no slot changes nothing.
    pub fn clear_breakpoint(&mut self, id: usize)
        ensures
            final(self)@ == if id < 4 {
                old(self)@.update(id as int, None)
            } else {
                old(self)@
            },
    {
        proof {
            use_type_invariant(&*self);
        }
        if id < 4 {
            self.breakpoints[id] = None;
            assert(self@ =~= old(self)@.update(id as int, None));
        }
    }

    /// Tells which breakpoint stopped the thread, from the four low bits of
    /// its debug status register.
    pub fn was_breakpoint_hit(&self, thread_context: &ThreadContext) -> (hit: Option<u32>)
        ensures
            hit == dr6_hit(thread_context.dr6),
    {
        let dr6 = thread_context.dr6;
        let mut idx: u32 = 0;
        proof {
            lemma_slot_bits();
        }
        while idx < 4
            invariant
                0 <= idx <= 4,
                dr6 == thread_context.dr6,
                idx > 0 ==> dr6 & 1 == 0,
                idx > 1 ==> dr6 & 2 == 0,
                idx > 2 ==> dr6 & 4 == 0,
                idx > 3 ==> dr6 & 8 == 0,
                1u64 << 0u32 == 1 && 1u64 << 1u32 == 2 && 1u64 << 2u32 == 4 && 1u64 << 3u32 == 8,
            decreases 4 - idx,
        {
            if dr6 & (1u64 << idx) != 0 {
                return Some(idx);
            }
            idx += 1;
        }
        None
    }

    /// Projects the table onto the registers of the thread `thread_id`, which
    /// the caller has fetched and will write back. The thread whose
    /// identifier is `resume_thread_id` also gets the resume flag, so that it
    /// can step off a breakpoint at its current instruction.
    pub fn apply_breakpoints(
        &self,
        ctx: ThreadContext,
        thread_id: u32,
        resume_thread_id: u32,
    ) -> (updated: ThreadContext)
        ensures
            updated == applied(ctx, self@, thread_id == resume_thread_id),
    {
        let mut updated = ctx;
        let mut dr7 = ctx.dr7;
        match self.breakpoints[0] {
            Some(bp) => {
                updated.dr0 = bp.addr;
                dr7 = (dr7 & !(0xfu64 << 16)) | 1u64;
            },
            None => {
                dr7 = dr7 & !1u64;
            },
        }
        assert(dr7 == dr7_with_slot(ctx.dr7, 0, self@[0] is Some)) by {
            lemma_slot_masks();
        }
        let ghost dr7_0 = dr7;
        match self.breakpoints[1] {
            Some(bp) => {
                updated.dr1 = bp.addr;
                dr7 = (dr7 & !(0xfu64 << 20)) | 4u64;
            },
            None => {
                dr7 = dr7 & !4u64;
            },
        }
        assert(dr7 == dr7_with_slot(dr7_0, 1, self@[1] is Some)) by {
            lemma_slot_masks();
        }
        let ghost dr7_1 = dr7;
        match self.breakpoints[2] {
            Some(bp) => {
                updated.dr2 = bp.addr;
                dr7 = (dr7 & !(0xfu64 << 24)) | 16u64;
            },
            None => {
                dr7 = dr7 & !16u64;
            },
        }
        assert(dr7 == dr7_with_slot(dr7_1, 2, self@[2] is Some)) by {
            lemma_slot_masks();
        }
        let ghost dr7_2 = dr7;
        match self.breakpoints[3] {
            Some(bp) => {
                updated.dr3 = bp.addr;
                dr7 = (dr7 & !(0xfu64 << 28)) | 64u64;
            },
            None => {
                dr7 = dr7 & !64u64;
            },
        }
        assert(dr7 == dr7_with_slot(dr7_2, 3, self@[3] is Some)) by {
            lemma_slot_masks();
        }
        updated.dr7 = dr7;
        if thread_id == resume_thread_id {
            updated.eflags = updated.eflags | RESUME_FLAG;
        }
        updated
    }
}

proof fn lemma_slot_bits()
    by (bit_vector)
    ensures
        1u64 << 0u32 == 1,
        1u64 << 1u32 == 2,
        1u64 << 2u32 == 4,
        1u64 << 3u32 == 8,
{
}

proof fn lemma_slot_masks()
    by (bit_vector)
    ensures
        1u64 << (0u64 * 2) == 1,
        1u64 << (1u64 * 2) == 4,
        1u64 << (2u64 * 2) == 16,
        1u64 << (3u64 * 2) == 64,
        0xfu64 << (0u64 * 4 + 16) == 0xfu64 << 16,
        0xfu64 << (1u64 * 4 + 16) == 0xfu64 << 20,
        0xfu64 << (2u64 * 4 + 16) == 0xfu64 << 24,
        0xfu64 << (3u64 * 4 + 16) == 0xfu64 << 28,
{
}

/// A slot shows up in the listing exactly when it is populated, and then with
/// the address that it holds.
pub proof fn law_listed_iff_populated(slots: Seq<Option<u64>>, slot: int)
    requires
        0 <= slot < slots.len(),
    ensures
        slots[slot] is Some <==> exists|k: int|
            0 <= k < populated(slots).len() && (#[trigger] populated(slots)[k]).0 == slot,
        forall|k: int|
            0 <= k < populated(slots).len() && (#[trigger] populated(slots)[k]).0 == slot
                ==> slots[slot] == Some(populated(slots)[k].1),
{
    lemma_listed_upto(slots, slots.len() as int, slot);
    let listed = populated_upto(slots, slots.len() as int);
    assert(populated(slots) == listed);
    if slots[slot] is Some {
        let k = choose|k: int| 0 <= k < listed.len() && (#[trigger] listed[k]).0 == slot;
        assert(populated(slots)[k].0 == slot);
    }
    if exists|k: int|
        0 <= k < populated(slots).len() && (#[trigger] populated(slots)[k]).0 == slot {
        let k = choose|k: int|
            0 <= k < populated(slots).len() && (#[trigger] populated(slots)[k]).0 == slot;
        assert(listed[k].0 == slot);
    }
    assert forall|k: int|
        0 <= k < populated(slots).len() && (#[trigger] populated(slots)[k]).0
            == slot implies slots[slot] == Some(populated(slots)[k].1) by {
        assert(listed[k].0 == slot);
    }
}

proof fn lemma_listed_upto(slots: Seq<Option<u64>>, upto: int, slot: int)
    requires
        0 <= upto <= slots.len(),
        0 <= slot < slots.len(),
    ensures
        (slot < upto && slots[slot] is Some) <==> exists|k: int|
            0 <= k < populated_upto(slots, upto).len() && (#[trigger] populated_upto(
                slots,
                upto,
            )[k]).0 == slot,
        forall|k: int|
            0 <= k < populated_upto(slots, upto).len() && (#[trigger] populated_upto(
                slots,
                upto,
            )[k]).0 == slot ==> slots[slot] == Some(populated_upto(slots, upto)[k].1),
    decreases upto,
{
    if upto > 0 {
        lemma_listed_upto(slots, upto - 1, slot);
        let before = populated_upto(slots, upto - 1);
        let all = populated_upto(slots, upto);
        if let Some(addr) = slots[upto - 1] {
            assert(all == before.push((upto - 1, addr)));
            assert(all[before.len() as int] == (upto - 1, addr));
            assert(forall|k: int| 0 <= k < before.len() ==> all[k] == #[trigger] before[k]);
            if slot < upto && slots[slot] is Some {
                if slot == upto - 1 {
                    assert(all[before.len() as int].0 == slot);
                } else {
                    let k = choose|k: int|
                        0 <= k < before.len() && (#[trigger] before[k]).0 == slot;
                    assert(all[k].0 == slot);
                }
            }
            assert forall|k: int| 0 <= k < all.len() && (#[trigger] all[k]).0 == slot implies slot
                < upto && slots[slot] == Some(all[k].1) by {
                if k < before.len() {
                    assert(all[k] == before[k]);
                }
            }
        } else {
            assert(all =~= before);
        }
    }
}

/// Adding a breakpoint and then clearing the slot that it was given leaves
/// the table, and so its listing, as it was before.
pub proof fn law_add_then_clear_restores(slots: Seq<Option<u64>>, addr: u64)
    requires
        lowest_empty_from(slots, 0) is Some,
    ensures
        ({
            let slot = lowest_empty_from(slots, 0)->0;
            &&& 0 <= slot < slots.len()
            &&& slots[slot] is None
            &&& slots.update(slot, Some(addr)).update(slot, None) == slots
            &&& populated(slots.update(slot, Some(addr)).update(slot, None)) == populated(slots)
        }),
{
    lemma_lowest_empty(slots, 0);
    let slot = lowest_empty_from(slots, 0)->0;
    assert(slots.update(slot, Some(addr)).update(slot, None) =~= slots);
}

/// The lowest empty slot is empty, and every slot below it is populated; there
/// is none exactly when every slot is populated.
pub proof fn lemma_lowest_empty(slots: Seq<Option<u64>>, from: int)
    requires
        0 <= from,
    ensures
        match lowest_empty_from(slots, from) {
            Some(slot) => from <= slot < slots.len() && slots[slot] is None && forall|j: int|
                from <= j < slot ==> slots[j] is Some,
            None => forall|j: int| from <= j < slots.len() ==> slots[j] is Some,
        },
    decreases slots.len() - from,
{
    if from < slots.len() && slots[from] is Some {
        lemma_lowest_empty(slots, from + 1);
    }
}

/// A table whose slots are all populated takes no further breakpoint.
pub proof fn law_full_table_has_no_slot(slots: Seq<Option<u64>>)
    requires
        forall|j: int| 0 <= j < slots.len() ==> slots[j] is Some,
    ensures
        lowest_empty_from(slots, 0) is None,
{
    lemma_lowest_empty(slots, 0);
}

/// Where exactly one of the four low status bits is set, that bit's slot is
/// reported; where none is set, no breakpoint is reported.
pub proof fn law_single_status_bit(dr6: u64)
    ensures
        dr6 & 0xf == 0 ==> dr6_hit(dr6) is None,
        dr6 & 0xf == 1 ==> dr6_hit(dr6) == Some(0u32),
        dr6 & 0xf == 2 ==> dr6_hit(dr6) == Some(1u32),
        dr6 & 0xf == 4 ==> dr6_hit(dr6) == Some(2u32),
        dr6 & 0xf == 8 ==> dr6_hit(dr6) == Some(3u32),
{
    assert(dr6 & 0xf == 0 ==> dr6 & 1 == 0 && dr6 & 2 == 0 && dr6 & 4 == 0 && dr6 & 8 == 0)
        by (bit_vector);
    assert(dr6 & 0xf == 1 ==> dr6 & 1 != 0) by (bit_vector);
    assert(dr6 & 0xf == 2 ==> dr6 & 1 == 0 && dr6 & 2 != 0) by (bit_vector);
    assert(dr6 & 0xf == 4 ==> dr6 & 1 == 0 && dr6 & 2 == 0 && dr6 & 4 != 0) by (bit_vector);
    assert(dr6 & 0xf == 8 ==> dr6 & 1 == 0 && dr6 & 2 == 0 && dr6 & 4 == 0 && dr6 & 8 != 0)
        by (bit_vector);
}

/// Projecting an unchanged table a second time changes nothing.
pub proof fn law_apply_is_idempotent(ctx: ThreadContext, slots: Seq<Option<u64>>, resuming: bool)
    ensures
        applied(applied(ctx, slots, resuming), slots, resuming) == applied(ctx, slots, resuming),
{
    let d = ctx.dr7;
    let used0 = slots[0] is Some;
    let used1 = slots[1] is Some;
    let used2 = slots[2] is Some;
    let used3 = slots[3] is Some;
    let once = dr7_with_slot(
        dr7_with_slot(dr7_with_slot(dr7_with_slot(d, 0, used0), 1, used1), 2, used2),
        3,
        used3,
    );
    assert(dr7_with_slot(
        dr7_with_slot(dr7_with_slot(dr7_with_slot(once, 0, used0), 1, used1), 2, used2),
        3,
        used3,
    ) == once) by (bit_vector)
        requires
            once == dr7_with_slot(
                dr7_with_slot(dr7_with_slot(dr7_with_slot(d, 0, used0), 1, used1), 2, used2),
                3,
                used3,
            ),
    ;
    let e = ctx.eflags;
    assert((e | RESUME_FLAG) | RESUME_FLAG == e | RESUME_FLAG) by (bit_vector);
}

/// Projecting the table touches the local-enable bit of each slot, the
/// condition and length bits of the populated slots, and no other bit of the
/// debug control register.
pub proof fn law_apply_sets_enable_bits(dr7: u64, slots: Seq<Option<u64>>, slot: u64)
    requires
        slot < 4,
    ensures
        (dr7_with_slots(dr7, slots) >> (slot * 2)) & 1 == if slots[slot as int] is Some {
            1u64
        } else {
            0u64
        },
        slots[slot as int] is Some ==> (dr7_with_slots(dr7, slots) >> (slot * 4 + 16)) & 0xf == 0,
        slots[slot as int] is None ==> (dr7_with_slots(dr7, slots) >> (slot * 4 + 16)) & 0xf == (
        dr7 >> (slot * 4 + 16)) & 0xf,
        dr7_with_slots(dr7, slots) & 0xffff_ffff_0000_ff00 == dr7 & 0xffff_ffff_0000_ff00,
        dr7_with_slots(dr7, slots) & 0xaa == dr7 & 0xaa,
{
    let used0 = slots[0] is Some;
    let used1 = slots[1] is Some;
    let used2 = slots[2] is Some;
    let used3 = slots[3] is Some;
    let r = dr7_with_slot(
        dr7_with_slot(dr7_with_slot(dr7_with_slot(dr7, 0, used0), 1, used1), 2, used2),
        3,
        used3,
    );
    let p = slots[slot as int] is Some;
    assert({
        &&& (r >> (slot * 2)) & 1 == if p { 1u64 } else { 0u64 }
        &&& p ==> (r >> (slot * 4 + 16)) & 0xf == 0
        &&& !p ==> (r >> (slot * 4 + 16)) & 0xf == (dr7 >> (slot * 4 + 16)) & 0xf
        &&& r & 0xffff_ffff_0000_ff00 == dr7 & 0xffff_ffff_0000_ff00
        &&& r & 0xaa == dr7 & 0xaa
    }) by (bit_vector)
        requires
            slot < 4,
            r == dr7_with_slot(
                dr7_with_slot(dr7_with_slot(dr7_with_slot(dr7, 0, used0), 1, used1), 2, used2),
                3,
                used3,
            ),
            p == (if slot == 0 {
                used0
            } else if slot == 1 {
                used1
            } else if slot == 2 {
                used2
            } else {
                used3
            }),
    ;
}

} // verus!
