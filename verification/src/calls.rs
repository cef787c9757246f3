//! The remote calls understood by the provider's resource pallet, and their
//! exact wire encoding.
//!
//! Each call is one entry of the provider's dispatch table: one byte for the
//! module, one byte for the call, then the fields in declaration order. The
//! numeric discriminants are fixed by convention with the provider; nothing
//! checks them at runtime, so they are pinned here by contract and by test.

use vstd::prelude::*;
use crate::AccountId;
use vstd::slice::{slice_index_get, slice_subrange};
use crate::scale::{le16, le32, le128, spec_compact_u32, sd_u8, sd_u16, sd_u32, sd_u128,
    sd_bytes32, sd_compact_u32, lemma_sd_u8, lemma_sd_u16, lemma_sd_u32, lemma_sd_u128,
    lemma_sd_bytes32, lemma_sd_compact_u32, lemma_concat_assoc, enc_u16, enc_u32, enc_u128, enc_bytes,
    enc_compact_u32, d_u8, d_u16, d_u32, d_u128, d_bytes32, d_compact_u32};

verus! {

/// Discriminant of the provider's resource module in its dispatch table.
pub const BROKER_MODULE_INDEX: u8 = 74;

/// Discriminant of the request-unit-count call.
pub const REQUEST_CORE_COUNT_INDEX: u8 = 1;

/// Discriminant of the request-revenue-info call.
pub const REQUEST_REVENUE_INFO_AT_INDEX: u8 = 2;

/// Discriminant of the credit-account call.
pub const CREDIT_ACCOUNT_INDEX: u8 = 3;

/// Discriminant of the assign-unit call.
pub const ASSIGN_CORE_INDEX: u8 = 4;

/// One work assignment a resource unit can be bound to.
#[derive(Clone, Copy, PartialEq, Eq, Structural, Debug)]
pub enum CoreAssignment {
    /// The unit stays idle.
    Idle,
    /// The unit serves the on-demand pool.
    Pool,
    /// The unit serves the given task.
    Task(u32),
}

/// One call into the provider's resource module.
#[derive(PartialEq, Eq, Debug)]
pub enum RemoteCall {
    /// Ask the provider to change how many allocatable units exist.
    RequestCoreCount { count: u16 },
    /// Ask for revenue accounting at the given checkpoint.
    RequestRevenueInfoAt { when: u32 },
    /// Redirect the given amount of credit to an account on the provider.
    CreditAccount { who: AccountId, amount: u128 },
    /// Bind a unit to an assignment list for a time window.
    AssignCore {
        core: u16,
        begin: u32,
        assignment: Vec<(CoreAssignment, u16)>,
        end_hint: Option<u32>,
    },
}

/// The mathematical value of a `RemoteCall`.
pub enum CallView {
    RequestCoreCount { count: u16 },
    RequestRevenueInfoAt { when: u32 },
    CreditAccount { who: Seq<u8>, amount: u128 },
    AssignCore {
        core: u16,
        begin: u32,
        assignment: Seq<(CoreAssignment, u16)>,
        end_hint: Option<u32>,
    },
}

impl View for RemoteCall {
    type V = CallView;

    open spec fn view(&self) -> CallView {
        match self {
            RemoteCall::RequestCoreCount { count } => CallView::RequestCoreCount {
                count: *count,
            },
            RemoteCall::RequestRevenueInfoAt { when } => CallView::RequestRevenueInfoAt {
                when: *when,
            },
            RemoteCall::CreditAccount { who, amount } => CallView::CreditAccount {
                who: who@,
                amount: *amount,
            },
            RemoteCall::AssignCore { core, begin, assignment, end_hint } => CallView::AssignCore {
                core: *core,
                begin: *begin,
                assignment: assignment@,
                end_hint: *end_hint,
            },
        }
    }
}

impl CallView {
    /// A call is well formed when its account is 32 bytes and its
    /// assignment list fits behind the compact length prefix.
    pub open spec fn wf(self) -> bool {
        match self {
            CallView::CreditAccount { who, .. } => who.len() == 32,
            CallView::AssignCore { assignment, .. } => assignment.len() <= 0xffffffff,
            _ => true,
        }
    }
}

/// The fixed call discriminant of each variant.
pub open spec fn call_discriminant(c: CallView) -> u8 {
    match c {
        CallView::RequestCoreCount { .. } => REQUEST_CORE_COUNT_INDEX,
        CallView::RequestRevenueInfoAt { .. } => REQUEST_REVENUE_INFO_AT_INDEX,
        CallView::CreditAccount { .. } => CREDIT_ACCOUNT_INDEX,
        CallView::AssignCore { .. } => ASSIGN_CORE_INDEX,
    }
}

// ---------------------------------------------------------------------------
// Spec encoding
// ---------------------------------------------------------------------------

pub open spec fn se_assignment(a: CoreAssignment) -> Seq<u8> {
    match a {
        CoreAssignment::Idle => seq![0u8],
        CoreAssignment::Pool => seq![1u8],
        CoreAssignment::Task(id) => seq![2u8] + le32(id),
    }
}

pub open spec fn se_pair(p: (CoreAssignment, u16)) -> Seq<u8> {
    se_assignment(p.0) + le16(p.1)
}

pub open spec fn se_assignments(s: Seq<(CoreAssignment, u16)>) -> Seq<u8>
    decreases s.len(),
{
    if s.len() == 0 {
        Seq::empty()
    } else {
        se_pair(s[0]) + se_assignments(s.skip(1))
    }
}

pub open spec fn se_option_u32(o: Option<u32>) -> Seq<u8> {
    match o {
        Option::None => seq![0u8],
        Option::Some(v) => seq![1u8] + le32(v),
    }
}

/// The wire bytes of one call, without the module discriminant.
pub open spec fn se_call(c: CallView) -> Seq<u8> {
    match c {
        CallView::RequestCoreCount { count } => seq![REQUEST_CORE_COUNT_INDEX] + le16(count),
        CallView::RequestRevenueInfoAt { when } => seq![REQUEST_REVENUE_INFO_AT_INDEX] + le32(
            when,
        ),
        CallView::CreditAccount { who, amount } => seq![CREDIT_ACCOUNT_INDEX] + who + le128(
            amount,
        ),
        CallView::AssignCore { core, begin, assignment, end_hint } => seq![ASSIGN_CORE_INDEX]
            + le16(core) + le32(begin) + spec_compact_u32(assignment.len() as u32)
            + se_assignments(assignment) + se_option_u32(end_hint),
    }
}

/// The full wire bytes of one dispatch-table entry: module then call.
pub open spec fn se_envelope(c: CallView) -> Seq<u8> {
    seq![BROKER_MODULE_INDEX] + se_call(c)
}

// ---------------------------------------------------------------------------
// Spec decoding
// ---------------------------------------------------------------------------

pub open spec fn sd_assignment(b: Seq<u8>) -> Option<(CoreAssignment, Seq<u8>)> {
    match sd_u8(b) {
        Option::None => None,
        Option::Some((t, r)) => if t == 0 {
            Some((CoreAssignment::Idle, r))
        } else if t == 1 {
            Some((CoreAssignment::Pool, r))
        } else if t == 2 {
            match sd_u32(r) {
                Option::None => None,
                Option::Some((id, r2)) => Some((CoreAssignment::Task(id), r2)),
            }
        } else {
            None
        },
    }
}

pub open spec fn sd_pair(b: Seq<u8>) -> Option<((CoreAssignment, u16), Seq<u8>)> {
    match sd_assignment(b) {
        Option::None => None,
        Option::Some((a, r)) => match sd_u16(r) {
            Option::None => None,
            Option::Some((share, r2)) => Some(((a, share), r2)),
        },
    }
}

pub open spec fn sd_assignments(b: Seq<u8>, n: nat) -> Option<
    (Seq<(CoreAssignment, u16)>, Seq<u8>),
>
    decreases n,
{
    if n == 0 {
        Some((Seq::empty(), b))
    } else {
        match sd_pair(b) {
            Option::None => None,
            Option::Some((p, r)) => match sd_assignments(r, (n - 1) as nat) {
                Option::None => None,
                Option::Some((tail, r2)) => Some((seq![p] + tail, r2)),
            },
        }
    }
}

pub open spec fn sd_option_u32(b: Seq<u8>) -> Option<(Option<u32>, Seq<u8>)> {
    match sd_u8(b) {
        Option::None => None,
        Option::Some((t, r)) => if t == 0 {
            Some((Option::None, r))
        } else if t == 1 {
            match sd_u32(r) {
                Option::None => None,
                Option::Some((v, r2)) => Some((Option::Some(v), r2)),
            }
        } else {
            None
        },
    }
}

pub open spec fn sd_call(b: Seq<u8>) -> Option<(CallView, Seq<u8>)> {
    match sd_u8(b) {
        Option::None => None,
        Option::Some((t, r)) => if t == REQUEST_CORE_COUNT_INDEX {
            match sd_u16(r) {
                Option::None => None,
                Option::Some((count, r2)) => Some((CallView::RequestCoreCount { count }, r2)),
            }
        } else if t == REQUEST_REVENUE_INFO_AT_INDEX {
            match sd_u32(r) {
                Option::None => None,
                Option::Some((when, r2)) => Some((CallView::RequestRevenueInfoAt { when }, r2)),
            }
        } else if t == CREDIT_ACCOUNT_INDEX {
            match sd_bytes32(r) {
                Option::None => None,
                Option::Some((who, r2)) => match sd_u128(r2) {
                    Option::None => None,
                    Option::Some((amount, r3)) => Some(
                        (CallView::CreditAccount { who, amount }, r3),
                    ),
                },
            }
        } else if t == ASSIGN_CORE_INDEX {
            match sd_u16(r) {
                Option::None => None,
                Option::Some((core, r2)) => match sd_u32(r2) {
                    Option::None => None,
                    Option::Some((begin, r3)) => match sd_compact_u32(r3) {
                        Option::None => None,
                        Option::Some((n, r4)) => match sd_assignments(r4, n as nat) {
                            Option::None => None,
                            Option::Some((assignment, r5)) => match sd_option_u32(r5) {
                                Option::None => None,
                                Option::Some((end_hint, r6)) => Some(
                                    (
                                        CallView::AssignCore {
                                            core,
                                            begin,
                                            assignment,
                                            end_hint,
                                        },
                                        r6,
                                    ),
                                ),
                            },
                        },
                    },
                },
            }
        } else {
            None
        },
    }
}

/// Decode a full dispatch-table entry; the bytes must be consumed exactly.
pub open spec fn sd_envelope(b: Seq<u8>) -> Option<CallView> {
    match sd_u8(b) {
        Option::None => None,
        Option::Some((m, r)) => if m == BROKER_MODULE_INDEX {
            match sd_call(r) {
                Option::None => None,
                Option::Some((c, rest)) => if rest.len() == 0 {
                    Some(c)
                } else {
                    None
                },
            }
        } else {
            None
        },
    }
}

// ---------------------------------------------------------------------------
// Round-trip lemmas
// ---------------------------------------------------------------------------

pub proof fn lemma_sd_assignment(a: CoreAssignment, rest: Seq<u8>)
    ensures
        sd_assignment(se_assignment(a) + rest) == Some((a, rest)),
{
    match a {
        CoreAssignment::Idle => {
            lemma_sd_u8(0u8, rest);
        },
        CoreAssignment::Pool => {
            lemma_sd_u8(1u8, rest);
        },
        CoreAssignment::Task(id) => {
            assert((seq![2u8] + le32(id)) + rest =~= seq![2u8] + (le32(id) + rest));
            lemma_sd_u8(2u8, le32(id) + rest);
            lemma_sd_u32(id, rest);
        },
    }
}

pub proof fn lemma_sd_pair(p: (CoreAssignment, u16), rest: Seq<u8>)
    ensures
        sd_pair(se_pair(p) + rest) == Some((p, rest)),
{
    assert((se_assignment(p.0) + le16(p.1)) + rest =~= se_assignment(p.0) + (le16(p.1) + rest));
    lemma_sd_assignment(p.0, le16(p.1) + rest);
    lemma_sd_u16(p.1, rest);
}

pub proof fn lemma_sd_assignments(s: Seq<(CoreAssignment, u16)>, rest: Seq<u8>)
    ensures
        sd_assignments(se_assignments(s) + rest, s.len() as nat) == Some((s, rest)),
    decreases s.len(),
{
    if s.len() == 0 {
        assert(se_assignments(s) + rest =~= rest);
        assert(s =~= Seq::<(CoreAssignment, u16)>::empty());
    } else {
        let tail_bytes = se_assignments(s.skip(1));
        assert((se_pair(s[0]) + tail_bytes) + rest =~= se_pair(s[0]) + (tail_bytes + rest));
        lemma_sd_pair(s[0], tail_bytes + rest);
        lemma_sd_assignments(s.skip(1), rest);
        assert(seq![s[0]] + s.skip(1) =~= s);
    }
}

pub proof fn lemma_sd_option_u32(o: Option<u32>, rest: Seq<u8>)
    ensures
        sd_option_u32(se_option_u32(o) + rest) == Some((o, rest)),
{
    match o {
        Option::None => {
            lemma_sd_u8(0u8, rest);
        },
        Option::Some(v) => {
            assert((seq![1u8] + le32(v)) + rest =~= seq![1u8] + (le32(v) + rest));
            lemma_sd_u8(1u8, le32(v) + rest);
            lemma_sd_u32(v, rest);
        },
    }
}

#[verifier::spinoff_prover]
#[verifier::rlimit(100)]
pub proof fn lemma_sd_call(c: CallView, rest: Seq<u8>)
    requires
        c.wf(),
    ensures
        sd_call(se_call(c) + rest) == Some((c, rest)),
{
    match c {
        CallView::RequestCoreCount { count } => {
            assert((seq![REQUEST_CORE_COUNT_INDEX] + le16(count)) + rest =~= seq![
                REQUEST_CORE_COUNT_INDEX,
            ] + (le16(count) + rest));
            lemma_sd_u8(REQUEST_CORE_COUNT_INDEX, le16(count) + rest);
            lemma_sd_u16(count, rest);
        },
        CallView::RequestRevenueInfoAt { when } => {
            assert((seq![REQUEST_REVENUE_INFO_AT_INDEX] + le32(when)) + rest =~= seq![
                REQUEST_REVENUE_INFO_AT_INDEX,
            ] + (le32(when) + rest));
            lemma_sd_u8(REQUEST_REVENUE_INFO_AT_INDEX, le32(when) + rest);
            lemma_sd_u32(when, rest);
        },
        CallView::CreditAccount { who, amount } => {
            assert((seq![CREDIT_ACCOUNT_INDEX] + who + le128(amount)) + rest =~= seq![
                CREDIT_ACCOUNT_INDEX,
            ] + (who + (le128(amount) + rest)));
            lemma_sd_u8(CREDIT_ACCOUNT_INDEX, who + (le128(amount) + rest));
            lemma_sd_bytes32(who, le128(amount) + rest);
            lemma_sd_u128(amount, rest);
        },
        CallView::AssignCore { core, begin, assignment, end_hint } => {
            lemma_sd_call_assign(core, begin, assignment, end_hint, rest);
        },
    }
}

proof fn lemma_sd_call_assign(
    core: u16,
    begin: u32,
    assignment: Seq<(CoreAssignment, u16)>,
    end_hint: Option<u32>,
    rest: Seq<u8>,
)
    requires
        assignment.len() <= 0xffffffff,
    ensures
        sd_call(
            se_call(CallView::AssignCore { core, begin, assignment, end_hint }) + rest,
        ) == Some((CallView::AssignCore { core, begin, assignment, end_hint }, rest)),
{
    let tag = seq![ASSIGN_CORE_INDEX];
    let bc = le16(core);
    let bb = le32(begin);
    let n = assignment.len() as u32;
    let bn = spec_compact_u32(n);
    let ba = se_assignments(assignment);
    let bo = se_option_u32(end_hint);
    let c = CallView::AssignCore { core, begin, assignment, end_hint };
    assert(se_call(c) == ((((tag + bc) + bb) + bn) + ba) + bo);
    lemma_concat_assoc(((((tag + bc) + bb) + bn) + ba), bo, rest);
    lemma_concat_assoc((((tag + bc) + bb) + bn), ba, bo + rest);
    lemma_concat_assoc(((tag + bc) + bb), bn, ba + (bo + rest));
    lemma_concat_assoc((tag + bc), bb, bn + (ba + (bo + rest)));
    lemma_concat_assoc(tag, bc, bb + (bn + (ba + (bo + rest))));
    lemma_sd_u8(ASSIGN_CORE_INDEX, bc + (bb + (bn + (ba + (bo + rest)))));
    lemma_sd_u16(core, bb + (bn + (ba + (bo + rest))));
    lemma_sd_u32(begin, bn + (ba + (bo + rest)));
    lemma_sd_compact_u32(n, ba + (bo + rest));
    lemma_sd_assignments(assignment, bo + rest);
    assert(n as nat == assignment.len());
    lemma_sd_option_u32(end_hint, rest);
}

/// Decoding the encoding of any well-formed call yields that call again:
/// the wire format loses nothing.
pub proof fn lemma_round_trip(c: CallView)
    requires
        c.wf(),
    ensures
        sd_envelope(se_envelope(c)) == Some(c),
{
    assert(seq![BROKER_MODULE_INDEX] + se_call(c) =~= seq![BROKER_MODULE_INDEX] + (se_call(c)
        + Seq::<u8>::empty()));
    lemma_sd_u8(BROKER_MODULE_INDEX, se_call(c) + Seq::<u8>::empty());
    lemma_sd_call(c, Seq::<u8>::empty());
    assert(se_call(c) + Seq::<u8>::empty() =~= se_call(c));
}

/// No two distinct well-formed calls share an encoding: together with the
/// round trip this makes the codec a bijection on valid calls.
pub proof fn lemma_encoding_injective(a: CallView, b: CallView)
    requires
        a.wf(),
        b.wf(),
        se_envelope(a) == se_envelope(b),
    ensures
        a == b,
{
    lemma_round_trip(a);
    lemma_round_trip(b);
}

/// The first byte of every encoded entry is the module discriminant and the
/// second is the call's own fixed discriminant, whatever the fields hold.
pub proof fn lemma_envelope_discriminants(c: CallView)
    ensures
        se_envelope(c).len() >= 2,
        se_envelope(c)[0] == BROKER_MODULE_INDEX,
        se_envelope(c)[1] == call_discriminant(c),
{
    match c {
        CallView::RequestCoreCount { count } => {
            assert(se_call(c)[0] == REQUEST_CORE_COUNT_INDEX);
        },
        CallView::RequestRevenueInfoAt { when } => {
            assert(se_call(c)[0] == REQUEST_REVENUE_INFO_AT_INDEX);
        },
        CallView::CreditAccount { who, amount } => {
            assert(se_call(c)[0] == CREDIT_ACCOUNT_INDEX);
        },
        CallView::AssignCore { core, begin, assignment, end_hint } => {
            assert(se_call(c)[0] == ASSIGN_CORE_INDEX);
        },
    }
}

// ---------------------------------------------------------------------------
// Executable encoding
// ---------------------------------------------------------------------------

fn enc_assignment(out: &mut Vec<u8>, a: CoreAssignment)
    ensures
        final(out)@ == old(out)@ + se_assignment(a),
{
    match a {
        CoreAssignment::Idle => {
            out.push(0u8);
            assert(out@ =~= old(out)@ + se_assignment(a));
        },
        CoreAssignment::Pool => {
            out.push(1u8);
            assert(out@ =~= old(out)@ + se_assignment(a));
        },
        CoreAssignment::Task(id) => {
            out.push(2u8);
            let ghost mid = out@;
            enc_u32(out, id);
            assert(mid =~= old(out)@ + seq![2u8]);
            assert((old(out)@ + seq![2u8]) + le32(id) =~= old(out)@ + (seq![2u8] + le32(id)));
        },
    }
}

fn enc_assignments(out: &mut Vec<u8>, items: &[(CoreAssignment, u16)])
    ensures
        final(out)@ == old(out)@ + se_assignments(items@),
    decreases items@.len(),
{
    if items.len() == 0 {
        assert(out@ =~= old(out)@ + se_assignments(items@));
    } else {
        let p = *slice_index_get(items, 0);
        enc_assignment(out, p.0);
        let ghost mid1 = out@;
        enc_u16(out, p.1);
        let ghost mid2 = out@;
        let tail = slice_subrange(items, 1, items.len());
        enc_assignments(out, tail);
        proof {
            assert(tail@ =~= items@.skip(1));
            assert(items@[0] == p);
            assert(mid2 =~= old(out)@ + se_pair(items@[0])) by {
                assert(mid2 == (old(out)@ + se_assignment(p.0)) + le16(p.1));
                assert((old(out)@ + se_assignment(p.0)) + le16(p.1) =~= old(out)@ + (
                se_assignment(p.0) + le16(p.1)));
            }
            assert((old(out)@ + se_pair(items@[0])) + se_assignments(items@.skip(1)) =~= old(out)@
                + (se_pair(items@[0]) + se_assignments(items@.skip(1))));
        }
    }
}

fn enc_option_u32(out: &mut Vec<u8>, o: &Option<u32>)
    ensures
        final(out)@ == old(out)@ + se_option_u32(*o),
{
    match o {
        Option::None => {
            out.push(0u8);
            assert(out@ =~= old(out)@ + se_option_u32(*o));
        },
        Option::Some(v) => {
            out.push(1u8);
            let ghost mid = out@;
            enc_u32(out, *v);
            assert(mid =~= old(out)@ + seq![1u8]);
            assert((old(out)@ + seq![1u8]) + le32(*v) =~= old(out)@ + (seq![1u8] + le32(*v)));
        },
    }
}

/// Serialize one call into the exact byte string the provider's dispatch
/// table expects: module discriminant, call discriminant, then the fields.
pub fn encode_envelope(call: &RemoteCall) -> (out: Vec<u8>)
    requires
        call@.wf(),
    ensures
        out@ == se_envelope(call@),
{
    let mut out: Vec<u8> = Vec::new();
    out.push(BROKER_MODULE_INDEX);
    match call {
        RemoteCall::RequestCoreCount { count } => {
            out.push(REQUEST_CORE_COUNT_INDEX);
            enc_u16(&mut out, *count);
            assert(out@ =~= se_envelope(call@));
        },
        RemoteCall::RequestRevenueInfoAt { when } => {
            out.push(REQUEST_REVENUE_INFO_AT_INDEX);
            enc_u32(&mut out, *when);
            assert(out@ =~= se_envelope(call@));
        },
        RemoteCall::CreditAccount { who, amount } => {
            out.push(CREDIT_ACCOUNT_INDEX);
            enc_bytes(&mut out, &who.bytes);
            enc_u128(&mut out, *amount);
            assert(out@ =~= se_envelope(call@));
        },
        RemoteCall::AssignCore { core, begin, assignment, end_hint } => {
            out.push(ASSIGN_CORE_INDEX);
            enc_u16(&mut out, *core);
            enc_u32(&mut out, *begin);
            enc_compact_u32(&mut out, assignment.len() as u32);
            enc_assignments(&mut out, assignment.as_slice());
            enc_option_u32(&mut out, end_hint);
            assert(out@ =~= se_envelope(call@));
        },
    }
    out
}

// ---------------------------------------------------------------------------
// Executable decoding
// ---------------------------------------------------------------------------

fn d_assignment(b: &[u8]) -> (r: Option<(CoreAssignment, &[u8])>)
    ensures
        match r {
            Some((a, rest)) => sd_assignment(b@) == Some((a, rest@)),
            None => sd_assignment(b@) is None,
        },
{
    match d_u8(b) {
        Option::None => None,
        Option::Some((t, r)) => {
            if t == 0 {
                Some((CoreAssignment::Idle, r))
            } else if t == 1 {
                Some((CoreAssignment::Pool, r))
            } else if t == 2 {
                match d_u32(r) {
                    Option::None => None,
                    Option::Some((id, r2)) => Some((CoreAssignment::Task(id), r2)),
                }
            } else {
                None
            }
        },
    }
}

fn d_pair(b: &[u8]) -> (r: Option<((CoreAssignment, u16), &[u8])>)
    ensures
        match r {
            Some((p, rest)) => sd_pair(b@) == Some((p, rest@)),
            None => sd_pair(b@) is None,
        },
{
    match d_assignment(b) {
        Option::None => None,
        Option::Some((a, r)) => match d_u16(r) {
            Option::None => None,
            Option::Some((share, r2)) => Some(((a, share), r2)),
        },
    }
}

fn d_assignments(b: &[u8], n: u32) -> (r: Option<(Vec<(CoreAssignment, u16)>, &[u8])>)
    ensures
        match r {
            Some((s, rest)) => sd_assignments(b@, n as nat) == Some((s@, rest@)) && s@.len()
                == n,
            None => sd_assignments(b@, n as nat) is None,
        },
    decreases n,
{
    if n == 0 {
        Some((Vec::new(), b))
    } else {
        match d_pair(b) {
            Option::None => None,
            Option::Some((p, r)) => match d_assignments(r, n - 1) {
                Option::None => None,
                Option::Some((tail, r2)) => {
                    let ghost tailv = tail@;
                    let mut s = tail;
                    s.insert(0, p);
                    assert(s@ =~= seq![p] + tailv);
                    Some((s, r2))
                },
            },
        }
    }
}

fn d_option_u32(b: &[u8]) -> (r: Option<(Option<u32>, &[u8])>)
    ensures
        match r {
            Some((o, rest)) => sd_option_u32(b@) == Some((o, rest@)),
            None => sd_option_u32(b@) is None,
        },
{
    match d_u8(b) {
        Option::None => None,
        Option::Some((t, r)) => {
            if t == 0 {
                Some((Option::None, r))
            } else if t == 1 {
                match d_u32(r) {
                    Option::None => None,
                    Option::Some((v, r2)) => Some((Option::Some(v), r2)),
                }
            } else {
                None
            }
        },
    }
}

/// Decode one full dispatch-table entry. Used on this side only to test
/// and audit the encoding; the provider performs the real decoding.
pub fn decode_envelope(bytes: &[u8]) -> (r: Option<RemoteCall>)
    ensures
        match r {
            Some(c) => c@.wf() && sd_envelope(bytes@) == Some(c@),
            None => sd_envelope(bytes@) is None,
        },
{
    let (m, after_module) = match d_u8(bytes) {
        Option::None => {
            return None;
        },
        Option::Some(x) => x,
    };
    if m != BROKER_MODULE_INDEX {
        return None;
    }
    let (t, r) = match d_u8(after_module) {
        Option::None => {
            return None;
        },
        Option::Some(x) => x,
    };
    let decoded: Option<(RemoteCall, &[u8])> = if t == REQUEST_CORE_COUNT_INDEX {
        match d_u16(r) {
            Option::None => None,
            Option::Some((count, r2)) => Some((RemoteCall::RequestCoreCount { count }, r2)),
        }
    } else if t == REQUEST_REVENUE_INFO_AT_INDEX {
        match d_u32(r) {
            Option::None => None,
            Option::Some((when, r2)) => Some((RemoteCall::RequestRevenueInfoAt { when }, r2)),
        }
    } else if t == CREDIT_ACCOUNT_INDEX {
        match d_bytes32(r) {
            Option::None => None,
            Option::Some((who, r2)) => match d_u128(r2) {
                Option::None => None,
                Option::Some((amount, r3)) => Some(
                    (RemoteCall::CreditAccount { who: AccountId { bytes: who }, amount }, r3),
                ),
            },
        }
    } else if t == ASSIGN_CORE_INDEX {
        match d_u16(r) {
            Option::None => None,
            Option::Some((core, r2)) => match d_u32(r2) {
                Option::None => None,
                Option::Some((begin, r3)) => match d_compact_u32(r3) {
                    Option::None => None,
                    Option::Some((n, r4)) => match d_assignments(r4, n) {
                        Option::None => None,
                        Option::Some((assignment, r5)) => match d_option_u32(r5) {
                            Option::None => None,
                            Option::Some((end_hint, r6)) => Some(
                                (
                                    RemoteCall::AssignCore {
                                        core,
                                        begin,
                                        assignment,
                                        end_hint,
                                    },
                                    r6,
                                ),
                            ),
                        },
                    },
                },
            },
        }
    } else {
        None
    };
    match decoded {
        Option::None => None,
        Option::Some((c, rest)) => {
            if rest.len() == 0 {
                Some(c)
            } else {
                None
            }
        },
    }
}

} // verus!
