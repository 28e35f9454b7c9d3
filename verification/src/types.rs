use vstd::prelude::*;

verus! {

/// Identity of a principal or of the service's own custody account.
///
/// Principals are opaque to the escrow rules: all the logic ever does with
/// one is compare it for equality, so a plain number stands for it.
#[derive(Clone, Copy, PartialEq, Eq, Structural, Debug)]
pub struct Address {
    pub id: u64,
}

/// One client-freelancer payment arrangement, keyed by a caller-chosen
/// unique string id.
///
/// The four flags are monotonic: once set by a successful operation, none of
/// them is ever reset to false.
#[derive(Debug, PartialEq, Eq)]
pub struct Escrow {
    pub escrow_id: String,
    pub client: Address,
    pub freelancer: Address,
    pub amount: i128,
    pub token: Address,
    pub funded: bool,
    pub delivered: bool,
    pub released: bool,
    pub disputed: bool,
    pub arbiter: Address,
}

impl Clone for Escrow {
    fn clone(&self) -> (r: Self)
        ensures
            r == *self,
    {
        Escrow {
            escrow_id: self.escrow_id.clone(),
            client: self.client,
            freelancer: self.freelancer,
            amount: self.amount,
            token: self.token,
            funded: self.funded,
            delivered: self.delivered,
            released: self.released,
            disputed: self.disputed,
            arbiter: self.arbiter,
        }
    }
}

/// Why an operation aborted. Every failure is a whole-operation abort with
/// no partial mutation of the store or of the ledger.
#[derive(Clone, Copy, PartialEq, Eq, Structural, Debug)]
pub enum EscrowError {
    /// No escrow is stored under the given id.
    NotFound,
    /// An escrow with the given id already exists.
    AlreadyExists,
    /// The escrow was funded earlier.
    AlreadyFunded,
    /// The escrow has not been funded yet.
    NotFunded,
    /// Delivery was signalled earlier.
    AlreadyDelivered,
    /// Delivery has not been signalled yet.
    NotDelivered,
    /// The funds were released earlier.
    AlreadyReleased,
    /// The dispute was resolved earlier.
    AlreadyResolved,
    /// No dispute is open on the escrow.
    NotDisputed,
    /// The caller is not the principal this operation requires.
    Unauthorized,
    /// The token ledger refused the transfer, e.g. for lack of balance.
    TransferFailed,
}

/// Observability event emitted by each successful operation, with the
/// payload that callers see.
#[derive(Clone, Copy, PartialEq, Eq, Structural, Debug)]
pub enum Event {
    Created { client: Address },
    Funded { amount: i128 },
    Delivered { flag: bool },
    Released { amount: i128 },
    Disputed { flag: bool },
    Resolved { pay_freelancer: bool },
}

} // verus!
