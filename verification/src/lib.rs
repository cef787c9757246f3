pub mod allocator;
pub mod calls;
pub mod credit;
pub mod envelope;
pub mod scale;

use vstd::prelude::*;

verus! {

/// A 32-byte account identifier on the provider's domain.
#[derive(PartialEq, Eq, Debug)]
pub struct AccountId {
    pub bytes: Vec<u8>,
}

impl View for AccountId {
    type V = Seq<u8>;

    open spec fn view(&self) -> Seq<u8> {
        self.bytes@
    }
}

impl AccountId {
    /// An account identifier is well formed when it holds exactly 32 bytes.
    pub open spec fn wf(&self) -> bool {
        self.bytes@.len() == 32
    }

    pub fn new(bytes: Vec<u8>) -> (r: AccountId)
        requires
            bytes@.len() == 32,
        ensures
            r.wf(),
            r@ == bytes@,
    {
        AccountId { bytes }
    }
}

} // verus!
