use vstd::prelude::*;

verus! {

/// A validator's registration with the relay (placeholder body).
#[derive(Debug, Clone, Copy, PartialEq, Eq, Structural)]
pub struct ValidatorRegistrationV1 {
    pub a: i64,
}

/// A proposer's request for a header (placeholder body).
#[derive(Debug, Clone, Copy, PartialEq, Eq, Structural)]
pub struct ProposalRequest {
    pub a: i64,
}

/// A builder's bid for a slot (placeholder body).
#[derive(Debug, Clone, Copy, PartialEq, Eq, Structural)]
pub struct BuilderBidV1 {
    pub a: i64,
}

/// A proposer's signed blinded block (placeholder body).
#[derive(Debug, Clone, Copy, PartialEq, Eq, Structural)]
pub struct SignedBlindedBeaconBlock {
    pub a: i64,
}

/// The unblinded execution payload returned to a proposer (placeholder body).
#[derive(Debug, Clone, Copy, PartialEq, Eq, Structural)]
pub struct ExecutionPayload {
    pub a: i64,
}

} // verus!
