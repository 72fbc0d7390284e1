//! The transfer engine and the two read-only queries, layered on the
//! ledger store.
//!
//! `TransferFunds::execute` is the core state transition: it validates a
//! request, then debits the sender, credits the receiver and appends the
//! transfer record inside one transaction, so that either all of it or
//! none of it becomes visible.

use vstd::prelude::*;

use crate::domain::RequestView;
use crate::domain::Transfer;
use crate::domain::TransferError;
use crate::domain::TransferRequest;
use crate::domain::TransferView;
use crate::domain::valid_request;
use crate::domain::validate_request;
use crate::store::Ledger;
use crate::store::balance_or_zero;
use crate::store::history_view;

verus! {

/// Whether the sender's recorded balance (zero when absent) covers the
/// amount.
pub open spec fn sufficient(m: Map<Seq<char>, int>, from: Seq<char>, amount: int) -> bool {
    balance_or_zero(m, from) >= amount
}

/// The balances after moving `amount` from `from` to `to`: the sender is
/// debited first, and the credit then reads the debited map — so a
/// self-transfer credits what the debit just wrote.
pub open spec fn transfer_applied(
    m: Map<Seq<char>, int>,
    from: Seq<char>,
    to: Seq<char>,
    amount: int,
) -> Map<Seq<char>, int> {
    let debited = m.insert(from, balance_or_zero(m, from) - amount);
    debited.insert(to, balance_or_zero(debited, to) + amount)
}

/// The record that applying request `r` against a store whose next id is
/// `id` commits.
pub open spec fn record_of(r: RequestView, id: int) -> TransferView {
    TransferView { id, from: r.from, to: r.to, amount: r.amount, timestamp: Some(id) }
}

/// The record that applying `req` against a store whose next id is `id`
/// commits.
pub open spec fn applied_record(req: TransferRequest, id: int) -> TransferView {
    record_of(req@, id)
}

/// The ledger as the engine's contract sees it: the balance map, the
/// committed log and the next id.
pub ghost struct LedgerModel {
    pub balances: Map<Seq<char>, int>,
    pub log: Seq<TransferView>,
    pub next_id: int,
}

/// The model a concrete ledger denotes.
pub open spec fn model_of(l: Ledger) -> LedgerModel {
    LedgerModel { balances: l.balances(), log: l.log(), next_id: l.next_id() }
}

/// What one engine invocation does to the ledger: a valid, funded request
/// with an id still available moves the balances, appends its record and
/// advances the id; any other request leaves the ledger exactly as it
/// was. `TransferFunds::execute`'s contract refines this step.
pub open spec fn step_model(s: LedgerModel, r: RequestView) -> LedgerModel {
    if valid_request(r) && sufficient(s.balances, r.from, r.amount) && s.next_id < i64::MAX as int {
        LedgerModel {
            balances: transfer_applied(s.balances, r.from, r.to, r.amount),
            log: s.log.push(record_of(r, s.next_id)),
            next_id: s.next_id + 1,
        }
    } else {
        s
    }
}

/// The engine's transition folded over a batch of requests, in delivery
/// order.
pub open spec fn run_model(s: LedgerModel, reqs: Seq<RequestView>) -> LedgerModel
    decreases reqs.len(),
{
    if reqs.len() == 0 {
        s
    } else {
        run_model(step_model(s, reqs.first()), reqs.drop_first())
    }
}

/// The transfer engine: applies one transfer request per invocation
/// against the ledger it owns.
pub struct TransferFunds {
    pub ledger: Ledger,
}

impl TransferFunds {
    pub fn new(ledger: Ledger) -> (r: Self)
        ensures
            r.ledger == ledger,
    {
        TransferFunds { ledger }
    }

    /// Applies one transfer atomically. Exactly one of four outcomes
    /// holds, and on every failure the ledger is exactly what it was:
    /// no partial balance mutation and no log entry ever persists.
    pub fn execute(&mut self, req: &TransferRequest) -> (r: Result<(), TransferError>)
        requires
            old(self).ledger.wf(),
        ensures
            final(self).ledger.wf(),
            final(self).ledger.total() == old(self).ledger.total(),
            r is Ok <==> valid_request(req@) && sufficient(
                old(self).ledger.balances(),
                req.from@,
                req.amount as int,
            ) && old(self).ledger.next_id() < i64::MAX as int,
            r is Ok ==> final(self).ledger.balances() == transfer_applied(
                old(self).ledger.balances(),
                req.from@,
                req.to@,
                req.amount as int,
            ),
            r is Ok ==> final(self).ledger.log() == old(self).ledger.log().push(
                applied_record(*req, old(self).ledger.next_id()),
            ),
            r is Ok ==> final(self).ledger.next_id() == old(self).ledger.next_id() + 1,
            r is Err ==> *final(self) == *old(self),
            r is Err ==> (r->Err_0 == TransferError::InvalidRequest <==> !valid_request(req@)),
            r is Err ==> (r->Err_0 == TransferError::InsufficientBalance <==> valid_request(req@)
                && !sufficient(old(self).ledger.balances(), req.from@, req.amount as int)),
            r is Err ==> (r->Err_0 == TransferError::StoreError <==> valid_request(req@)
                && sufficient(old(self).ledger.balances(), req.from@, req.amount as int)
                && old(self).ledger.next_id() == i64::MAX as int),
    {
        if let Err(e) = validate_request(req) {
            return Err(e);
        }
        let ghost m0 = self.ledger.balances();
        let mut tx = self.ledger.begin_transaction();
        let sender_balance: i64 = match tx.get_wallet(&req.from) {
            Some(w) => w.balance,
            None => 0,
        };
        if sender_balance < req.amount {
            tx.rollback();
            return Err(TransferError::InsufficientBalance);
        }
        proof {
            crate::store::lemma_tx_total_in_range(tx);
        }
        tx.update_balance(&req.from, sender_balance - req.amount);
        let receiver_balance: i64 = match tx.get_wallet(&req.to) {
            Some(w) => w.balance,
            None => 0,
        };
        tx.update_balance(&req.to, receiver_balance + req.amount);
        tx.record_transfer(req);
        proof {
            assert(tx.pending_requests() =~= Seq::<crate::domain::RequestView>::empty().push(
                req@,
            ));
            assert(tx.pending_requests().len() == 1);
        }
        let ghost id0 = self.ledger.next_id();
        proof {
            crate::store::lemma_next_id_in_range(self.ledger);
        }
        match self.ledger.commit(tx) {
            Ok(()) => {
                proof {
                    assert(self.ledger.log() == old(self).ledger.log().push(
                        applied_record(*req, id0),
                    )) by {
                        let cs = crate::store::committed_records(tx.pending_requests(), id0);
                        assert(cs == crate::store::committed_records(
                            tx.pending_requests().drop_last(),
                            id0,
                        ).push(applied_record(*req, id0)));
                        assert(tx.pending_requests().drop_last() =~= Seq::<
                            crate::domain::RequestView,
                        >::empty());
                        assert(cs =~= Seq::<TransferView>::empty().push(
                            applied_record(*req, id0),
                        ));
                        assert(old(self).ledger.log() + cs =~= old(self).ledger.log().push(
                            applied_record(*req, id0),
                        ));
                    }
                }
                Ok(())
            },
            Err(e) => Err(e),
        }
    }
}

/// The balance query: reads one wallet non-transactionally and fills in
/// the zero default for an address that was never credited.
pub struct GetBalance {
    pub ledger: Ledger,
}

impl GetBalance {
    pub fn new(ledger: Ledger) -> (r: Self)
        ensures
            r.ledger == ledger,
    {
        GetBalance { ledger }
    }

    /// Returns the recorded balance, or exactly zero when no record
    /// exists. No side effects.
    pub fn execute(&self, address: &str) -> (r: Result<i64, TransferError>)
        requires
            self.ledger.wf(),
        ensures
            r is Ok,
            r->Ok_0 as int == balance_or_zero(self.ledger.balances(), address@),
    {
        match self.ledger.get_wallet(address) {
            Some(w) => Ok(w.balance),
            None => Ok(0),
        }
    }
}

/// The history query: all transfers touching an address, newest first.
pub struct GetTransferHistory {
    pub ledger: Ledger,
}

impl GetTransferHistory {
    pub fn new(ledger: Ledger) -> (r: Self)
        ensures
            r.ledger == ledger,
    {
        GetTransferHistory { ledger }
    }

    /// Returns every transfer in which `address` is sender or receiver,
    /// newest first. No side effects.
    pub fn execute(&self, address: &str) -> (r: Result<Vec<Transfer>, TransferError>)
        ensures
            r is Ok,
            r->Ok_0@.map_values(|t: Transfer| t@) == history_view(self.ledger.log(), address@),
    {
        Ok(self.ledger.get_transfers(address))
    }
}

} // verus!
