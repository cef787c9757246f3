//! The allocator-side capability set: four send operations that queue
//! envelopes for the one-way transport, two pull-based notification slots
//! the provider's responses land in, and the current domain position.
//!
//! The transport itself lives outside this library. Send operations append
//! to an outbox in call order; the surrounding layer drains the outbox and
//! submits each envelope, so the transport receives envelopes in exactly
//! the order the calls were made.

use vstd::prelude::*;
use crate::AccountId;
use crate::calls::{RemoteCall, CallView, CoreAssignment};
use crate::envelope::{MessageEnvelope, EnvelopeView, Instruction, spec_envelope_for,
    build_envelope};

verus! {

/// What a push does to a notification slot: the new value replaces any
/// unread one (last write wins; the earlier value is designed loss).
pub open spec fn slot_push<T>(slot: Option<T>, v: T) -> Option<T> {
    Some(v)
}

/// What a check does to a notification slot: the pending value (if any)
/// is returned and the slot is reset, read or not.
pub open spec fn slot_take<T>(slot: Option<T>) -> (Option<T>, Option<T>) {
    (None, slot)
}

/// A value pushed and then checked is returned by that check; a second
/// check right after returns nothing: each push is observed at most once.
pub proof fn lemma_notify_exactly_once<T>(slot: Option<T>, v: T)
    ensures
        slot_take(slot_push(slot, v)).1 == Some(v),
        slot_take(slot_take(slot_push(slot, v)).0).1 == None::<T>,
{
}

/// Two pushes with no check between them behave as the second push alone:
/// the first value is overwritten and can never be observed.
pub proof fn lemma_notify_overwrite<T>(slot: Option<T>, first: T, second: T)
    ensures
        slot_push(slot_push(slot, first), second) == slot_push(slot, second),
        slot_take(slot_push(slot_push(slot, first), second)).1 == Some(second),
{
}

/// The mathematical state of the allocator.
pub struct AllocatorView {
    /// Pending unit-count notification.
    pub core_count: Option<u16>,
    /// Pending revenue notification: checkpoint and amount.
    pub revenue: Option<(u32, u128)>,
    /// Envelopes queued for the transport, oldest first.
    pub outbox: Seq<EnvelopeView>,
    /// The current domain position, as last reported by the surrounding layer.
    pub now: u32,
}

/// What one send operation does: queue the call's envelope, touch nothing else.
pub open spec fn spec_send(v: AllocatorView, c: CallView) -> AllocatorView {
    AllocatorView { outbox: v.outbox.push(spec_envelope_for(c)), ..v }
}

/// Send operations issued in order land in the outbox in the same order,
/// after everything that was queued before, and disturb nothing queued.
pub proof fn lemma_dispatch_order(v: AllocatorView, c1: CallView, c2: CallView)
    ensures
        ({
            let v2 = spec_send(spec_send(v, c1), c2);
            &&& v2.outbox.len() == v.outbox.len() + 2
            &&& v2.outbox[v.outbox.len() as int] == spec_envelope_for(c1)
            &&& v2.outbox[v.outbox.len() as int + 1] == spec_envelope_for(c2)
            &&& v2.outbox.take(v.outbox.len() as int) == v.outbox
        }),
{
    let v2 = spec_send(spec_send(v, c1), c2);
    assert(v2.outbox.take(v.outbox.len() as int) =~= v.outbox);
}

/// The allocator: the marketplace's only interface to the provider.
pub struct CoretimeAllocator {
    pub core_count_slot: Option<u16>,
    pub revenue_slot: Option<(u32, u128)>,
    pub outbox: Vec<MessageEnvelope>,
    pub now: u32,
}

impl View for CoretimeAllocator {
    type V = AllocatorView;

    open spec fn view(&self) -> AllocatorView {
        AllocatorView {
            core_count: self.core_count_slot,
            revenue: self.revenue_slot,
            outbox: self.outbox@.map_values(|m: MessageEnvelope| m@),
            now: self.now,
        }
    }
}

impl CoretimeAllocator {
    /// A fresh allocator: no pending notification, nothing queued.
    pub fn new() -> (r: CoretimeAllocator)
        ensures
            r@ == (AllocatorView {
                core_count: None,
                revenue: None,
                outbox: Seq::empty(),
                now: 0,
            }),
    {
        let r = CoretimeAllocator {
            core_count_slot: None,
            revenue_slot: None,
            outbox: Vec::new(),
            now: 0,
        };
        assert(r@.outbox =~= Seq::<EnvelopeView>::empty());
        r
    }

    /// The current domain position the marketplace timestamps requests with.
    pub fn latest(&self) -> (r: u32)
        ensures
            r == self@.now,
    {
        self.now
    }

    /// Record the domain position read from the surrounding state store.
    pub fn set_latest(&mut self, now: u32)
        ensures
            final(self)@ == (AllocatorView { now, ..old(self)@ }),
    {
        self.now = now;
    }

    fn queue(&mut self, call: &RemoteCall)
        requires
            call@.wf(),
        ensures
            final(self)@ == spec_send(old(self)@, call@),
    {
        let m = build_envelope(call);
        self.outbox.push(m);
        assert(self@.outbox =~= old(self)@.outbox.push(spec_envelope_for(call@)));
    }

    /// Ask the provider to change how many allocatable units exist.
    pub fn request_core_count(&mut self, count: u16)
        ensures
            final(self)@ == spec_send(old(self)@, CallView::RequestCoreCount { count }),
    {
        self.queue(&RemoteCall::RequestCoreCount { count });
    }

    /// Ask the provider for revenue accounting at the given checkpoint.
    pub fn request_revenue_info_at(&mut self, when: u32)
        ensures
            final(self)@ == spec_send(old(self)@, CallView::RequestRevenueInfoAt { when }),
    {
        self.queue(&RemoteCall::RequestRevenueInfoAt { when });
    }

    /// Ask the provider to credit the given account with the given amount.
    pub fn credit_account(&mut self, who: AccountId, amount: u128)
        requires
            who.wf(),
        ensures
            final(self)@ == spec_send(
                old(self)@,
                CallView::CreditAccount { who: who@, amount },
            ),
    {
        self.queue(&RemoteCall::CreditAccount { who, amount });
    }

    /// Ask the provider to bind a unit to an assignment list for a window.
    pub fn assign_core(
        &mut self,
        core: u16,
        begin: u32,
        assignment: Vec<(CoreAssignment, u16)>,
        end_hint: Option<u32>,
    )
        requires
            assignment@.len() <= 0xffffffff,
        ensures
            final(self)@ == spec_send(
                old(self)@,
                CallView::AssignCore { core, begin, assignment: assignment@, end_hint },
            ),
    {
        self.queue(&RemoteCall::AssignCore { core, begin, assignment, end_hint });
    }

    /// Drain the pending unit-count notification, resetting the slot
    /// whether or not a value was pending.
    pub fn check_notify_core_count(&mut self) -> (r: Option<u16>)
        ensures
            r == old(self)@.core_count,
            final(self)@ == (AllocatorView {
                core_count: slot_take(old(self)@.core_count).0,
                ..old(self)@
            }),
    {
        let r = self.core_count_slot;
        self.core_count_slot = None;
        r
    }

    /// Drain the pending revenue notification, resetting the slot
    /// whether or not a value was pending.
    pub fn check_notify_revenue_info(&mut self) -> (r: Option<(u32, u128)>)
        ensures
            r == old(self)@.revenue,
            final(self)@ == (AllocatorView {
                revenue: slot_take(old(self)@.revenue).0,
                ..old(self)@
            }),
    {
        let r = self.revenue_slot;
        self.revenue_slot = None;
        r
    }

    /// The provider-facing write path for the unit count: overwrite any
    /// unread value. Also lets tests and benchmarks simulate a push.
    pub fn ensure_notify_core_count(&mut self, count: u16)
        ensures
            final(self)@ == (AllocatorView {
                core_count: slot_push(old(self)@.core_count, count),
                ..old(self)@
            }),
    {
        self.core_count_slot = Some(count);
    }

    /// The provider-facing write path for revenue: overwrite any unread
    /// value. Also lets tests and benchmarks simulate a push.
    pub fn ensure_notify_revenue_info(&mut self, when: u32, revenue: u128)
        ensures
            final(self)@ == (AllocatorView {
                revenue: slot_push(old(self)@.revenue, (when, revenue)),
                ..old(self)@
            }),
    {
        self.revenue_slot = Some((when, revenue));
    }

    /// Hand every queued envelope to the surrounding layer, oldest first,
    /// leaving the outbox empty. The caller submits them in this order.
    pub fn drain_outbox(&mut self) -> (r: Vec<MessageEnvelope>)
        ensures
            r@.map_values(|m: MessageEnvelope| m@) == old(self)@.outbox,
            final(self)@ == (AllocatorView { outbox: Seq::empty(), ..old(self)@ }),
    {
        let mut taken: Vec<MessageEnvelope> = Vec::new();
        core::mem::swap(&mut taken, &mut self.outbox);
        assert(self@.outbox =~= Seq::<EnvelopeView>::empty());
        taken
    }
}

} // verus!
