//! Domain values of the ledger: wallets, transfer requests, committed
//! transfer records, and the error taxonomy, together with their ghost
//! images and the request validation rule.

use vstd::prelude::*;

verus! {

/// Why a transfer attempt failed, distinguishing business-rule rejections
/// from infrastructure faults.
#[derive(Clone, Copy, Debug, PartialEq, Eq, Structural)]
pub enum TransferError {
    /// Malformed input: an empty address or a non-positive amount.
    /// Rejected before any store interaction.
    InvalidRequest,
    /// The sender's balance is below the requested amount; the attempted
    /// transaction is rolled back and nothing is committed.
    InsufficientBalance,
    /// The ledger store could not complete an operation; the current
    /// attempt fails without committing partial state.
    StoreError,
    /// The intake channel could not accept or deliver a message.
    QueueError,
}

/// One wallet record: an address and its balance, denominated in the
/// smallest unit of the asset.
pub struct Wallet {
    pub address: String,
    pub balance: i64,
}

/// An unvalidated command to move `amount` from `from` to `to`. It is a
/// command, not an entity: it is never persisted itself.
pub struct TransferRequest {
    pub from: String,
    pub to: String,
    pub amount: i64,
}

/// A committed transfer record. `id` and `timestamp` are assigned by the
/// store; `timestamp` is absent only in fixtures that were never committed.
pub struct Transfer {
    pub id: i64,
    pub from_address: String,
    pub to_address: String,
    pub amount: i64,
    pub timestamp: Option<i64>,
}

/// Ghost image of a transfer request.
pub ghost struct RequestView {
    pub from: Seq<char>,
    pub to: Seq<char>,
    pub amount: int,
}

/// Ghost image of a committed transfer record.
pub ghost struct TransferView {
    pub id: int,
    pub from: Seq<char>,
    pub to: Seq<char>,
    pub amount: int,
    pub timestamp: Option<int>,
}

impl View for TransferRequest {
    type V = RequestView;

    open spec fn view(&self) -> RequestView {
        RequestView { from: self.from@, to: self.to@, amount: self.amount as int }
    }
}

impl View for Transfer {
    type V = TransferView;

    open spec fn view(&self) -> TransferView {
        TransferView {
            id: self.id as int,
            from: self.from_address@,
            to: self.to_address@,
            amount: self.amount as int,
            timestamp: match self.timestamp {
                Some(t) => Some(t as int),
                None => None,
            },
        }
    }
}

impl Clone for Wallet {
    fn clone(&self) -> (r: Self)
        ensures
            r == *self,
    {
        Wallet { address: self.address.clone(), balance: self.balance }
    }
}

impl Clone for TransferRequest {
    fn clone(&self) -> (r: Self)
        ensures
            r == *self,
    {
        TransferRequest { from: self.from.clone(), to: self.to.clone(), amount: self.amount }
    }
}

impl Clone for Transfer {
    fn clone(&self) -> (r: Self)
        ensures
            r == *self,
    {
        Transfer {
            id: self.id,
            from_address: self.from_address.clone(),
            to_address: self.to_address.clone(),
            amount: self.amount,
            timestamp: self.timestamp,
        }
    }
}

/// A request is semantically valid when both addresses are present and the
/// amount is positive.
pub open spec fn valid_request(r: RequestView) -> bool {
    r.from.len() > 0 && r.to.len() > 0 && r.amount > 0
}

/// Validates a request before any store interaction: a missing address or
/// a non-positive amount is rejected as `InvalidRequest`.
pub fn validate_request(req: &TransferRequest) -> (r: Result<(), TransferError>)
    ensures
        r is Ok <==> valid_request(req@),
        r is Err ==> r->Err_0 == TransferError::InvalidRequest,
{
    if req.from.as_str().is_empty() || req.to.as_str().is_empty() || req.amount <= 0 {
        Err(TransferError::InvalidRequest)
    } else {
        Ok(())
    }
}

} // verus!
