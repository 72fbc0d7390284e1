//! The engine's decision core for driving an external ledger store.
//!
//! A worker that processes one queued request against a remote store
//! performs each action this driver hands out (begin, read, write,
//! append, commit, rollback), feeds the store's reply back in, and stops
//! at `Done`. Every decision — validation before any store action, the
//! insufficient-balance check with its explicit rollback, both balance
//! computations, and the error taxonomy — is made and verified here; the
//! worker only moves values.

use vstd::prelude::*;

use crate::domain::TransferError;
use crate::domain::TransferRequest;
use crate::domain::valid_request;

verus! {

/// One command for the ledger store.
pub enum StoreAction {
    /// Open a transaction.
    Begin,
    /// Read the wallet for this address inside the transaction.
    ReadWallet(String),
    /// Set this address's balance inside the transaction.
    WriteBalance(String, i64),
    /// Append the record of this request inside the transaction.
    AppendTransfer(TransferRequest),
    /// Commit the transaction.
    Commit,
    /// Roll the transaction back.
    Rollback,
}

/// The store's reply to the last action.
#[derive(Clone, Copy, Debug)]
pub enum StoreEvent {
    /// The action succeeded (begin, write, append, commit, rollback).
    Completed,
    /// The read found this balance — or no record at all.
    WalletRead(Option<i64>),
    /// The store failed the action.
    Failed,
}

/// What the driver asks of the worker next.
pub enum DriverStep {
    /// Perform this action against the store and report the reply.
    Act(StoreAction),
    /// The attempt is over with this outcome.
    Done(Result<(), TransferError>),
}

/// Where one transfer attempt stands: which reply it is waiting for.
#[derive(Clone, Copy, Debug, PartialEq, Eq, Structural)]
pub enum DriverPhase {
    /// Waiting for the transaction to open.
    Starting,
    /// Waiting for the sender's wallet.
    AwaitingSender,
    /// Waiting for the sender's debit to be written.
    Debiting,
    /// Waiting for the receiver's wallet.
    AwaitingReceiver,
    /// Waiting for the receiver's credit to be written.
    Crediting,
    /// Waiting for the record append.
    Appending,
    /// Waiting for the commit.
    Committing,
    /// Waiting for the rollback that an insufficient balance demands.
    CancellingShort,
    /// The attempt is over.
    Finished,
}

/// The state of one transfer attempt against an external store.
pub struct TransferDriver {
    pub req: TransferRequest,
    pub phase: DriverPhase,
}

impl TransferDriver {
    /// An unfinished attempt always carries a valid request: invalid ones
    /// never get past `start`.
    pub open spec fn wf(self) -> bool {
        self.phase is Finished || valid_request(self.req@)
    }

    /// Starts one attempt. An invalid request is rejected before any
    /// store action; a valid one opens a transaction.
    pub fn start(req: TransferRequest) -> (r: (TransferDriver, DriverStep))
        ensures
            r.0.wf(),
            r.0.req == req,
            !valid_request(req@) ==> r.0.phase is Finished && r.1 == DriverStep::Done(
                Err(TransferError::InvalidRequest),
            ),
            valid_request(req@) ==> r.0.phase is Starting && r.1 == DriverStep::Act(
                StoreAction::Begin,
            ),
    {
        match crate::domain::validate_request(&req) {
            Err(e) => (
                TransferDriver { req, phase: DriverPhase::Finished },
                DriverStep::Done(Err(e)),
            ),
            Ok(()) => (
                TransferDriver { req, phase: DriverPhase::Starting },
                DriverStep::Act(StoreAction::Begin),
            ),
        }
    }

    /// Feeds the store's reply to the last action in and decides the next
    /// step. A store failure is always fatal to the attempt and surfaces
    /// as `StoreError`; a sender balance below the amount rolls the
    /// transaction back and then reports `InsufficientBalance`; otherwise
    /// the attempt walks debit, credit, append and commit in order. A
    /// receiver credit that the balance type cannot hold is a store
    /// constraint fault.
    pub fn step(&mut self, event: StoreEvent) -> (r: DriverStep)
        requires
            old(self).wf(),
            !(old(self).phase is Finished),
            match old(self).phase {
                DriverPhase::AwaitingSender => event is WalletRead || event is Failed,
                DriverPhase::AwaitingReceiver => event is WalletRead || event is Failed,
                _ => event is Completed || event is Failed,
            },
        ensures
            final(self).wf(),
            final(self).req == old(self).req,
            event is Failed ==> final(self).phase is Finished && r == DriverStep::Done(
                Err(TransferError::StoreError),
            ),
            !(event is Failed) ==> match old(self).phase {
                DriverPhase::Starting => final(self).phase is AwaitingSender && r
                    == DriverStep::Act(StoreAction::ReadWallet(old(self).req.from)),
                DriverPhase::AwaitingSender => {
                    let balance = match event {
                        StoreEvent::WalletRead(Some(b)) => b as int,
                        _ => 0,
                    };
                    if balance < old(self).req.amount as int {
                        final(self).phase is CancellingShort && r == DriverStep::Act(
                            StoreAction::Rollback,
                        )
                    } else {
                        final(self).phase is Debiting && (r matches DriverStep::Act(
                            StoreAction::WriteBalance(a, b),
                        ) && a@ == old(self).req.from@ && b as int == balance - old(
                            self,
                        ).req.amount as int)
                    }
                },
                DriverPhase::Debiting => final(self).phase is AwaitingReceiver && r
                    == DriverStep::Act(StoreAction::ReadWallet(old(self).req.to)),
                DriverPhase::AwaitingReceiver => {
                    let balance = match event {
                        StoreEvent::WalletRead(Some(b)) => b as int,
                        _ => 0,
                    };
                    if balance + old(self).req.amount as int > i64::MAX as int {
                        final(self).phase is Finished && r == DriverStep::Done(
                            Err(TransferError::StoreError),
                        )
                    } else {
                        final(self).phase is Crediting && (r matches DriverStep::Act(
                            StoreAction::WriteBalance(a, b),
                        ) && a@ == old(self).req.to@ && b as int == balance + old(
                            self,
                        ).req.amount as int)
                    }
                },
                DriverPhase::Crediting => final(self).phase is Appending && (r
                    matches DriverStep::Act(StoreAction::AppendTransfer(q)) && q == old(self).req),
                DriverPhase::Appending => final(self).phase is Committing && r == DriverStep::Act(
                    StoreAction::Commit,
                ),
                DriverPhase::Committing => final(self).phase is Finished && r == DriverStep::Done(
                    Ok(()),
                ),
                DriverPhase::CancellingShort => final(self).phase is Finished && r
                    == DriverStep::Done(Err(TransferError::InsufficientBalance)),
                DriverPhase::Finished => false,
            },
    {
        if let StoreEvent::Failed = event {
            self.phase = DriverPhase::Finished;
            return DriverStep::Done(Err(TransferError::StoreError));
        }
        match self.phase {
            DriverPhase::Starting => {
                self.phase = DriverPhase::AwaitingSender;
                DriverStep::Act(StoreAction::ReadWallet(self.req.from.clone()))
            },
            DriverPhase::AwaitingSender => {
                let balance: i64 = match event {
                    StoreEvent::WalletRead(Some(b)) => b,
                    _ => 0,
                };
                if balance < self.req.amount {
                    self.phase = DriverPhase::CancellingShort;
                    DriverStep::Act(StoreAction::Rollback)
                } else {
                    self.phase = DriverPhase::Debiting;
                    DriverStep::Act(
                        StoreAction::WriteBalance(
                            self.req.from.clone(),
                            balance - self.req.amount,
                        ),
                    )
                }
            },
            DriverPhase::Debiting => {
                self.phase = DriverPhase::AwaitingReceiver;
                DriverStep::Act(StoreAction::ReadWallet(self.req.to.clone()))
            },
            DriverPhase::AwaitingReceiver => {
                let balance: i64 = match event {
                    StoreEvent::WalletRead(Some(b)) => b,
                    _ => 0,
                };
                if balance > i64::MAX - self.req.amount {
                    self.phase = DriverPhase::Finished;
                    DriverStep::Done(Err(TransferError::StoreError))
                } else {
                    self.phase = DriverPhase::Crediting;
                    DriverStep::Act(
                        StoreAction::WriteBalance(self.req.to.clone(), balance + self.req.amount),
                    )
                }
            },
            DriverPhase::Crediting => {
                self.phase = DriverPhase::Appending;
                DriverStep::Act(StoreAction::AppendTransfer(self.req.clone()))
            },
            DriverPhase::Appending => {
                self.phase = DriverPhase::Committing;
                DriverStep::Act(StoreAction::Commit)
            },
            DriverPhase::Committing => {
                self.phase = DriverPhase::Finished;
                DriverStep::Done(Ok(()))
            },
            DriverPhase::CancellingShort => {
                self.phase = DriverPhase::Finished;
                DriverStep::Done(Err(TransferError::InsufficientBalance))
            },
            DriverPhase::Finished => DriverStep::Done(Err(TransferError::StoreError)),
        }
    }
}

} // verus!
