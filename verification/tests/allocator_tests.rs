use coretime_allocator::AccountId;
use coretime_allocator::allocator::CoretimeAllocator;
use coretime_allocator::calls::{CoreAssignment, RemoteCall, encode_envelope};
use coretime_allocator::envelope::{Destination, Instruction, OriginKind, Weight, WeightLimit};

fn account(fill: u8) -> AccountId {
    AccountId::new(vec![fill; 32])
}

#[test]
fn notify_core_count_exactly_once() {
    let mut allocator = CoretimeAllocator::new();
    allocator.ensure_notify_core_count(42);
    assert_eq!(allocator.check_notify_core_count(), Some(42));
    assert_eq!(allocator.check_notify_core_count(), None);
}

#[test]
fn notify_core_count_overwrite() {
    let mut allocator = CoretimeAllocator::new();
    allocator.ensure_notify_core_count(1);
    allocator.ensure_notify_core_count(2);
    assert_eq!(allocator.check_notify_core_count(), Some(2));
    assert_eq!(allocator.check_notify_core_count(), None);
}

#[test]
fn notify_revenue_exactly_once() {
    let mut allocator = CoretimeAllocator::new();
    allocator.ensure_notify_revenue_info(7, 1_000);
    assert_eq!(allocator.check_notify_revenue_info(), Some((7, 1_000)));
    assert_eq!(allocator.check_notify_revenue_info(), None);
}

#[test]
fn notify_revenue_overwrite() {
    let mut allocator = CoretimeAllocator::new();
    allocator.ensure_notify_revenue_info(7, 1_000);
    allocator.ensure_notify_revenue_info(8, 2_000);
    assert_eq!(allocator.check_notify_revenue_info(), Some((8, 2_000)));
    assert_eq!(allocator.check_notify_revenue_info(), None);
}

#[test]
fn check_on_empty_slot_is_empty() {
    let mut allocator = CoretimeAllocator::new();
    assert_eq!(allocator.check_notify_core_count(), None);
    assert_eq!(allocator.check_notify_revenue_info(), None);
}

#[test]
fn slots_are_independent() {
    let mut allocator = CoretimeAllocator::new();
    allocator.ensure_notify_core_count(5);
    assert_eq!(allocator.check_notify_revenue_info(), None);
    assert_eq!(allocator.check_notify_core_count(), Some(5));
}

fn transact_payload(instructions: &[Instruction]) -> &[u8] {
    match &instructions[1] {
        Instruction::Transact { call, .. } => call.as_slice(),
        _ => panic!("second instruction must be a transact directive"),
    }
}

#[test]
fn dispatch_preserves_order() {
    let mut allocator = CoretimeAllocator::new();
    allocator.request_core_count(3);
    allocator.request_revenue_info_at(9);
    allocator.credit_account(account(1), 50);
    let queued = allocator.drain_outbox();
    assert_eq!(queued.len(), 3);
    assert_eq!(
        transact_payload(&queued[0].instructions),
        encode_envelope(&RemoteCall::RequestCoreCount { count: 3 }).as_slice()
    );
    assert_eq!(
        transact_payload(&queued[1].instructions),
        encode_envelope(&RemoteCall::RequestRevenueInfoAt { when: 9 }).as_slice()
    );
    assert_eq!(
        transact_payload(&queued[2].instructions),
        encode_envelope(&RemoteCall::CreditAccount { who: account(1), amount: 50 }).as_slice()
    );
}

#[test]
fn drain_empties_the_outbox() {
    let mut allocator = CoretimeAllocator::new();
    allocator.request_core_count(1);
    assert_eq!(allocator.drain_outbox().len(), 1);
    assert_eq!(allocator.drain_outbox().len(), 0);
}

#[test]
fn envelope_shape_is_fixed() {
    let mut allocator = CoretimeAllocator::new();
    allocator.assign_core(
        0,
        10,
        vec![(CoreAssignment::Task(1), 57600)],
        Some(20),
    );
    let queued = allocator.drain_outbox();
    assert_eq!(queued.len(), 1);
    let envelope = &queued[0];
    assert_eq!(envelope.destination, Destination::Parent);
    assert_eq!(envelope.instructions.len(), 2);
    match &envelope.instructions[0] {
        Instruction::UnpaidExecution { weight_limit, check_origin } => {
            assert_eq!(*weight_limit, WeightLimit::Unlimited);
            assert_eq!(*check_origin, None);
        },
        _ => panic!("first instruction must be unpaid execution"),
    }
    match &envelope.instructions[1] {
        Instruction::Transact { origin_kind, .. } => {
            assert_eq!(*origin_kind, OriginKind::Native);
        },
        _ => panic!("second instruction must be a transact directive"),
    }
}

#[test]
fn weight_bound_is_pinned_regardless_of_payload() {
    let mut allocator = CoretimeAllocator::new();
    allocator.request_core_count(u16::MAX);
    allocator.request_revenue_info_at(u32::MAX);
    allocator.credit_account(account(9), u128::MAX);
    let big: Vec<(CoreAssignment, u16)> = vec![(CoreAssignment::Pool, 1); 1000];
    allocator.assign_core(1, 2, big, Some(3));
    for envelope in allocator.drain_outbox() {
        match &envelope.instructions[1] {
            Instruction::Transact { require_weight_at_most, .. } => {
                // The placeholder bound agreed with the provider, not a
                // value computed from the payload.
                assert_eq!(*require_weight_at_most, Weight { ref_time: 1, proof_size: 1 });
            },
            _ => panic!("second instruction must be a transact directive"),
        }
    }
}

#[test]
fn latest_reports_the_recorded_position() {
    let mut allocator = CoretimeAllocator::new();
    assert_eq!(allocator.latest(), 0);
    allocator.set_latest(77);
    assert_eq!(allocator.latest(), 77);
    allocator.request_core_count(1);
    assert_eq!(allocator.latest(), 77);
}
