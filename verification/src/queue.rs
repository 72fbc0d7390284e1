//! The intake channel boundary: the trait publishers go through, an
//! in-memory first-in first-out channel, and the acknowledgement rule
//! for at-least-once delivery.

use vstd::prelude::*;

use crate::domain::RequestView;
use crate::domain::TransferError;
use crate::domain::TransferRequest;

verus! {

/// The intake channel: accepts a transfer request for asynchronous
/// processing. A publisher that cannot accept a request reports
/// `QueueError`; it never invents any other failure.
pub trait MessageQueue {
    fn publish_transfer(&mut self, req: &TransferRequest) -> (r: Result<(), TransferError>)
        ensures
            r is Err ==> r->Err_0 == TransferError::QueueError,
    ;
}

/// An in-memory intake channel: a first-in, first-out buffer of pending
/// requests, for tests and single-process use.
pub struct InMemoryQueue {
    messages: Vec<TransferRequest>,
}

impl InMemoryQueue {
    /// The queued requests, oldest first.
    pub closed spec fn contents(self) -> Seq<RequestView> {
        self.messages@.map_values(|r: TransferRequest| r@)
    }

    /// An empty channel.
    pub fn new() -> (r: Self)
        ensures
            r.contents() == Seq::<RequestView>::empty(),
    {
        let r = InMemoryQueue { messages: Vec::new() };
        proof {
            assert(r.contents() =~= Seq::<RequestView>::empty());
        }
        r
    }

    /// How many requests wait to be processed.
    pub fn pending_count(&self) -> (r: usize)
        ensures
            r as int == self.contents().len(),
    {
        self.messages.len()
    }

    /// Delivers the oldest pending request to the consumer, or nothing
    /// when the channel is idle.
    pub fn take_next(&mut self) -> (r: Option<TransferRequest>)
        ensures
            old(self).contents().len() == 0 ==> r is None && final(self).contents() == old(
                self,
            ).contents(),
            old(self).contents().len() > 0 ==> (r matches Some(req) && req@ == old(
                self,
            ).contents().first()) && final(self).contents() == old(self).contents().drop_first(),
    {
        if self.messages.len() == 0 {
            None
        } else {
            let req = self.messages.remove(0);
            proof {
                assert(self.messages@.map_values(|r: TransferRequest| r@) =~= old(
                    self,
                ).contents().drop_first());
            }
            Some(req)
        }
    }
}

impl MessageQueue for InMemoryQueue {
    /// Publishing to the in-memory channel always succeeds and appends
    /// the request at the back.
    fn publish_transfer(&mut self, req: &TransferRequest) -> (r: Result<(), TransferError>)
        ensures
            r is Ok,
            final(self).contents() == old(self).contents().push(req@),
    {
        self.messages.push(req.clone());
        proof {
            assert(self.messages@.map_values(|r: TransferRequest| r@) =~= old(
                self,
            ).contents().push(req@));
        }
        Ok(())
    }
}

/// Consumes the whole channel: the engine is invoked once per delivered
/// request, in delivery order, so the final ledger is exactly the
/// engine's transition folded over the channel's contents. Whatever each
/// attempt's outcome, the sum of all balances afterwards is what it was
/// before the batch — value is neither created nor destroyed.
pub fn consume_all(queue: &mut InMemoryQueue, engine: &mut crate::engine::TransferFunds)
    requires
        old(engine).ledger.wf(),
    ensures
        final(engine).ledger.wf(),
        crate::engine::model_of(final(engine).ledger) == crate::engine::run_model(
            crate::engine::model_of(old(engine).ledger),
            old(queue).contents(),
        ),
        final(engine).ledger.total() == old(engine).ledger.total(),
        final(queue).contents().len() == 0,
{
    while queue.pending_count() > 0
        invariant
            engine.ledger.wf(),
            engine.ledger.total() == old(engine).ledger.total(),
            crate::engine::run_model(
                crate::engine::model_of(engine.ledger),
                queue.contents(),
            ) == crate::engine::run_model(
                crate::engine::model_of(old(engine).ledger),
                old(queue).contents(),
            ),
        decreases queue.contents().len(),
    {
        let ghost before = crate::engine::model_of(engine.ledger);
        let ghost remaining = queue.contents();
        if let Some(req) = queue.take_next() {
            let _ = engine.execute(&req);
            proof {
                assert(crate::engine::model_of(engine.ledger) == crate::engine::step_model(
                    before,
                    req@,
                ));
                assert(crate::engine::run_model(before, remaining)
                    == crate::engine::run_model(
                    crate::engine::step_model(before, remaining.first()),
                    remaining.drop_first(),
                ));
            }
        }
    }
}

/// The acknowledgement rule for at-least-once delivery: a consumed
/// message is acknowledged once `apply` has returned — also on a
/// business-rule rejection, which a retry cannot cure — but an
/// infrastructure fault leaves it unacknowledged for redelivery.
pub fn should_acknowledge(outcome: &Result<(), TransferError>) -> (r: bool)
    ensures
        r <==> !(outcome matches Err(TransferError::StoreError)),
{
    match outcome {
        Err(TransferError::StoreError) => false,
        _ => true,
    }
}

} // verus!
