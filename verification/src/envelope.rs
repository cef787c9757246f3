//! The transport envelope handed to the cross-domain message channel.
//!
//! Every outbound call travels as an ordered pair of instructions: an
//! unprivileged-execution directive (no origin check, unlimited weight
//! budget) followed by a transact directive that carries the serialized
//! call and a fixed, minimal weight bound. The bound is a placeholder by
//! design, never derived from the payload, and is pinned here by contract.

use vstd::prelude::*;
use crate::calls::{RemoteCall, CallView, se_envelope, encode_envelope};

verus! {

/// Fixed computation-time part of the transact weight bound.
pub const TRANSACT_REF_TIME: u64 = 1;

/// Fixed proof-size part of the transact weight bound.
pub const TRANSACT_PROOF_SIZE: u64 = 1;

/// A two-dimensional execution-cost bound on the destination domain.
#[derive(Clone, Copy, PartialEq, Eq, Structural, Debug)]
pub struct Weight {
    pub ref_time: u64,
    pub proof_size: u64,
}

/// A weight budget for executing a message.
#[derive(Clone, Copy, PartialEq, Eq, Structural, Debug)]
pub enum WeightLimit {
    Unlimited,
    Limited(Weight),
}

/// How the destination interprets the origin of a transact directive.
#[derive(Clone, Copy, PartialEq, Eq, Structural, Debug)]
pub enum OriginKind {
    Native,
    SovereignAccount,
    Superuser,
}

/// Where an envelope is addressed, relative to this domain.
#[derive(Clone, Copy, PartialEq, Eq, Structural, Debug)]
pub enum Destination {
    /// The provider's domain, one hop up.
    Parent,
    /// This domain itself.
    Here,
}

/// One transport instruction.
pub enum Instruction {
    /// Let the rest of the message execute without payment or origin check.
    UnpaidExecution { weight_limit: WeightLimit, check_origin: Option<Destination> },
    /// Execute an encoded call on the destination under a weight bound.
    Transact { origin_kind: OriginKind, require_weight_at_most: Weight, call: Vec<u8> },
}

/// The mathematical value of an `Instruction`.
pub enum InstructionView {
    UnpaidExecution { weight_limit: WeightLimit, check_origin: Option<Destination> },
    Transact { origin_kind: OriginKind, require_weight_at_most: Weight, call: Seq<u8> },
}

impl View for Instruction {
    type V = InstructionView;

    open spec fn view(&self) -> InstructionView {
        match self {
            Instruction::UnpaidExecution { weight_limit, check_origin } =>
                InstructionView::UnpaidExecution {
                weight_limit: *weight_limit,
                check_origin: *check_origin,
            },
            Instruction::Transact { origin_kind, require_weight_at_most, call } =>
                InstructionView::Transact {
                origin_kind: *origin_kind,
                require_weight_at_most: *require_weight_at_most,
                call: call@,
            },
        }
    }
}

/// A complete outbound message: its destination and its instructions.
pub struct MessageEnvelope {
    pub destination: Destination,
    pub instructions: Vec<Instruction>,
}

/// The mathematical value of a `MessageEnvelope`.
pub struct EnvelopeView {
    pub destination: Destination,
    pub instructions: Seq<InstructionView>,
}

impl View for MessageEnvelope {
    type V = EnvelopeView;

    open spec fn view(&self) -> EnvelopeView {
        EnvelopeView {
            destination: self.destination,
            instructions: self.instructions@.map_values(|i: Instruction| i@),
        }
    }
}

/// The fixed minimal weight bound attached to every transact directive.
pub open spec fn spec_transact_weight() -> Weight {
    Weight { ref_time: TRANSACT_REF_TIME, proof_size: TRANSACT_PROOF_SIZE }
}

/// The one envelope this library ever builds for a call: unpaid execution
/// with an unlimited budget and no origin check, then a native-origin
/// transact of the call's exact wire bytes, addressed to the provider.
pub open spec fn spec_envelope_for(c: CallView) -> EnvelopeView {
    EnvelopeView {
        destination: Destination::Parent,
        instructions: seq![
            InstructionView::UnpaidExecution {
                weight_limit: WeightLimit::Unlimited,
                check_origin: None,
            },
            InstructionView::Transact {
                origin_kind: OriginKind::Native,
                require_weight_at_most: spec_transact_weight(),
                call: se_envelope(c),
            },
        ],
    }
}

/// Build the transport envelope for one call.
pub fn build_envelope(call: &RemoteCall) -> (m: MessageEnvelope)
    requires
        call@.wf(),
    ensures
        m@ == spec_envelope_for(call@),
{
    let bytes = encode_envelope(call);
    let mut instructions: Vec<Instruction> = Vec::new();
    instructions.push(
        Instruction::UnpaidExecution {
            weight_limit: WeightLimit::Unlimited,
            check_origin: None,
        },
    );
    instructions.push(
        Instruction::Transact {
            origin_kind: OriginKind::Native,
            require_weight_at_most: Weight {
                ref_time: TRANSACT_REF_TIME,
                proof_size: TRANSACT_PROOF_SIZE,
            },
            call: bytes,
        },
    );
    let m = MessageEnvelope { destination: Destination::Parent, instructions };
    assert(m@.instructions =~= spec_envelope_for(call@).instructions);
    m
}

/// Every transact directive in the envelope of any call carries the fixed
/// minimal weight bound, whatever the payload and however large it is.
pub proof fn lemma_weight_bound_pinned(c: CallView)
    ensures
        forall|i: int|
            0 <= i < spec_envelope_for(c).instructions.len() ==> (#[trigger] spec_envelope_for(
                c,
            ).instructions[i] matches InstructionView::Transact {
                require_weight_at_most,
                ..
            } ==> require_weight_at_most == spec_transact_weight()),
{
}

} // verus!
