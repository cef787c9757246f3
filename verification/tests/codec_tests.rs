use coretime_allocator::AccountId;
use coretime_allocator::calls::{CoreAssignment, RemoteCall, decode_envelope, encode_envelope};
use parity_scale_codec::{Compact, Encode};

fn account(fill: u8) -> AccountId {
    AccountId::new(vec![fill; 32])
}

fn round_trip(call: RemoteCall) {
    let bytes = encode_envelope(&call);
    let back = decode_envelope(bytes.as_slice());
    assert_eq!(back, Some(call));
}

#[test]
fn round_trip_request_core_count() {
    round_trip(RemoteCall::RequestCoreCount { count: 0 });
    round_trip(RemoteCall::RequestCoreCount { count: 1 });
    round_trip(RemoteCall::RequestCoreCount { count: u16::MAX });
}

#[test]
fn round_trip_request_revenue_info_at() {
    round_trip(RemoteCall::RequestRevenueInfoAt { when: 0 });
    round_trip(RemoteCall::RequestRevenueInfoAt { when: u32::MAX });
}

#[test]
fn round_trip_credit_account() {
    round_trip(RemoteCall::CreditAccount { who: account(0), amount: 0 });
    round_trip(RemoteCall::CreditAccount { who: account(0xff), amount: u128::MAX });
    round_trip(RemoteCall::CreditAccount { who: account(7), amount: 1_000_000_000_000 });
}

#[test]
fn round_trip_assign_core_empty() {
    round_trip(RemoteCall::AssignCore {
        core: 0,
        begin: 0,
        assignment: vec![],
        end_hint: None,
    });
}

#[test]
fn round_trip_assign_core_singleton() {
    round_trip(RemoteCall::AssignCore {
        core: u16::MAX,
        begin: u32::MAX,
        assignment: vec![(CoreAssignment::Task(u32::MAX), 57600)],
        end_hint: Some(0),
    });
}

#[test]
fn round_trip_assign_core_large() {
    let mut assignment = Vec::new();
    for i in 0..100u32 {
        let a = match i % 3 {
            0 => CoreAssignment::Idle,
            1 => CoreAssignment::Pool,
            _ => CoreAssignment::Task(i),
        };
        assignment.push((a, (i % 576) as u16));
    }
    round_trip(RemoteCall::AssignCore {
        core: 42,
        begin: 123_456,
        assignment,
        end_hint: Some(u32::MAX),
    });
}

#[test]
fn envelope_discriminants_are_fixed() {
    let calls = vec![
        RemoteCall::RequestCoreCount { count: 9 },
        RemoteCall::RequestRevenueInfoAt { when: 9 },
        RemoteCall::CreditAccount { who: account(1), amount: 9 },
        RemoteCall::AssignCore { core: 9, begin: 9, assignment: vec![], end_hint: None },
    ];
    for (k, call) in calls.into_iter().enumerate() {
        let bytes = encode_envelope(&call);
        assert_eq!(bytes[0], 74, "module discriminant");
        assert_eq!(bytes[1] as usize, k + 1, "call discriminant");
    }
}

#[test]
fn exact_bytes_request_core_count() {
    let bytes = encode_envelope(&RemoteCall::RequestCoreCount { count: 5 });
    assert_eq!(bytes, vec![74u8, 1, 5, 0]);
}

#[test]
fn scale_agreement_u16_field() {
    let bytes = encode_envelope(&RemoteCall::RequestCoreCount { count: 0xABCD });
    assert_eq!(&bytes[2..], 0xABCDu16.encode().as_slice());
}

#[test]
fn scale_agreement_u32_field() {
    let bytes = encode_envelope(&RemoteCall::RequestRevenueInfoAt { when: 0xDEAD_BEEF });
    assert_eq!(&bytes[2..], 0xDEAD_BEEFu32.encode().as_slice());
}

#[test]
fn scale_agreement_credit_account() {
    let who = account(0x11);
    let amount: u128 = 0x0123_4567_89AB_CDEF_0011_2233_4455_6677;
    let bytes = encode_envelope(&RemoteCall::CreditAccount { who, amount });
    assert_eq!(&bytes[2..34], vec![0x11u8; 32].as_slice());
    assert_eq!(&bytes[34..], amount.encode().as_slice());
}

#[test]
fn scale_agreement_compact_lengths() {
    // One list length per mode of the compact prefix.
    for n in [0usize, 1, 63, 64, 300, 16383, 16384, 20000] {
        let assignment = vec![(CoreAssignment::Pool, 1u16); n];
        let bytes = encode_envelope(&RemoteCall::AssignCore {
            core: 1,
            begin: 2,
            assignment,
            end_hint: None,
        });
        // module, call, core (2 bytes), begin (4 bytes), then the prefix.
        let prefix = Compact(n as u32).encode();
        assert_eq!(&bytes[8..8 + prefix.len()], prefix.as_slice(), "length {n}");
    }
}

#[test]
fn scale_agreement_assign_core_whole_message() {
    let assignment = vec![
        (CoreAssignment::Idle, 100u16),
        (CoreAssignment::Pool, 200u16),
        (CoreAssignment::Task(0xCAFE), 300u16),
    ];
    let bytes = encode_envelope(&RemoteCall::AssignCore {
        core: 7,
        begin: 40_000,
        assignment,
        end_hint: Some(99),
    });
    // The same message assembled with the reference codec, variant tags by hand.
    let mut expected: Vec<u8> = vec![74, 4];
    expected.extend(7u16.encode());
    expected.extend(40_000u32.encode());
    expected.extend(Compact(3u32).encode());
    expected.push(0);
    expected.extend(100u16.encode());
    expected.push(1);
    expected.extend(200u16.encode());
    expected.push(2);
    expected.extend(0xCAFEu32.encode());
    expected.extend(300u16.encode());
    expected.extend(Some(99u32).encode());
    assert_eq!(bytes, expected);
}

#[test]
fn scale_agreement_end_hint_absent() {
    let bytes = encode_envelope(&RemoteCall::AssignCore {
        core: 0,
        begin: 0,
        assignment: vec![],
        end_hint: None,
    });
    let none: Option<u32> = None;
    assert_eq!(&bytes[bytes.len() - 1..], none.encode().as_slice());
}

#[test]
fn decode_rejects_wrong_module() {
    let mut bytes = encode_envelope(&RemoteCall::RequestCoreCount { count: 5 });
    bytes[0] = 73;
    assert_eq!(decode_envelope(bytes.as_slice()), None);
}

#[test]
fn decode_rejects_trailing_bytes() {
    let mut bytes = encode_envelope(&RemoteCall::RequestCoreCount { count: 5 });
    bytes.push(0);
    assert_eq!(decode_envelope(bytes.as_slice()), None);
}

#[test]
fn decode_rejects_truncation() {
    let bytes = encode_envelope(&RemoteCall::CreditAccount { who: account(3), amount: 10 });
    assert_eq!(decode_envelope(&bytes[..bytes.len() - 1]), None);
}
