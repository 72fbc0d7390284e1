//! Properties of the transfer semantics stated and proved in their own
//! right: how a transfer moves value, what it leaves untouched, what a
//! self-transfer does, how disjoint transfers compose, and what the
//! history query returns.

use vstd::prelude::*;

use crate::domain::TransferView;
use crate::engine::sufficient;
use crate::engine::transfer_applied;
use crate::store::balance_or_zero;
use crate::store::history_view;
use crate::store::touches;

verus! {

/// A transfer with distinct parties moves value and nothing else: the
/// sender loses exactly the amount the receiver gains, so the sum of all
/// balances is conserved.
pub proof fn lemma_transfer_moves_value(
    m: Map<Seq<char>, int>,
    from: Seq<char>,
    to: Seq<char>,
    amount: int,
)
    requires
        from != to,
    ensures
        balance_or_zero(transfer_applied(m, from, to, amount), from) == balance_or_zero(m, from)
            - amount,
        balance_or_zero(transfer_applied(m, from, to, amount), to) == balance_or_zero(m, to)
            + amount,
{
}

/// An address that is neither sender nor receiver keeps its balance. In
/// particular, an address that was never credited stays at the zero
/// default through any number of transfers between other parties.
pub proof fn lemma_transfer_frame(
    m: Map<Seq<char>, int>,
    from: Seq<char>,
    to: Seq<char>,
    amount: int,
    other: Seq<char>,
)
    requires
        other != from,
        other != to,
    ensures
        balance_or_zero(transfer_applied(m, from, to, amount), other) == balance_or_zero(m, other),
        transfer_applied(m, from, to, amount).contains_key(other) == m.contains_key(other),
{
}

/// A self-transfer with sufficient balance is a no-op on balances: the
/// debit and the credit cancel (though one record is still committed).
pub proof fn lemma_self_transfer_preserves_balances(m: Map<Seq<char>, int>, a: Seq<char>, amount: int)
    requires
        0 < amount <= balance_or_zero(m, a),
    ensures
        transfer_applied(m, a, a, amount) == m,
{
    assert(m.contains_key(a));
    assert(transfer_applied(m, a, a, amount) =~= m);
}

/// Transfers on disjoint address pairs commute, the first never starves
/// the second, and with four distinct addresses each pair's balances
/// reflect exactly its own transfer, whichever order the store serializes
/// them in.
pub proof fn lemma_disjoint_transfers_commute(
    m: Map<Seq<char>, int>,
    f1: Seq<char>,
    t1: Seq<char>,
    a1: int,
    f2: Seq<char>,
    t2: Seq<char>,
    a2: int,
)
    requires
        f1 != f2,
        f1 != t2,
        t1 != f2,
        t1 != t2,
        sufficient(m, f1, a1),
        sufficient(m, f2, a2),
    ensures
        sufficient(transfer_applied(m, f1, t1, a1), f2, a2),
        sufficient(transfer_applied(m, f2, t2, a2), f1, a1),
        transfer_applied(transfer_applied(m, f1, t1, a1), f2, t2, a2) == transfer_applied(
            transfer_applied(m, f2, t2, a2),
            f1,
            t1,
            a1,
        ),
        f1 != t1 && f2 != t2 ==> balance_or_zero(
            transfer_applied(transfer_applied(m, f1, t1, a1), f2, t2, a2),
            f1,
        ) == balance_or_zero(m, f1) - a1 && balance_or_zero(
            transfer_applied(transfer_applied(m, f1, t1, a1), f2, t2, a2),
            t1,
        ) == balance_or_zero(m, t1) + a1 && balance_or_zero(
            transfer_applied(transfer_applied(m, f1, t1, a1), f2, t2, a2),
            f2,
        ) == balance_or_zero(m, f2) - a2 && balance_or_zero(
            transfer_applied(transfer_applied(m, f1, t1, a1), f2, t2, a2),
            t2,
        ) == balance_or_zero(m, t2) + a2,
{
    lemma_transfer_frame(m, f1, t1, a1, f2);
    lemma_transfer_frame(m, f2, t2, a2, f1);
    assert(transfer_applied(transfer_applied(m, f1, t1, a1), f2, t2, a2) =~= transfer_applied(
        transfer_applied(m, f2, t2, a2),
        f1,
        t1,
        a1,
    ));
    if f1 != t1 && f2 != t2 {
        lemma_transfer_moves_value(m, f1, t1, a1);
        lemma_transfer_moves_value(transfer_applied(m, f1, t1, a1), f2, t2, a2);
        lemma_transfer_frame(transfer_applied(m, f1, t1, a1), f2, t2, a2, f1);
        lemma_transfer_frame(transfer_applied(m, f1, t1, a1), f2, t2, a2, t1);
        lemma_transfer_frame(m, f1, t1, a1, t2);
    }
}

/// Conservation across a run: the engine's contract keeps the sum of all
/// balances through every single outcome, and this chains it over any
/// sequence of states — the total after any number of transfer attempts,
/// successful or not, equals the total before.
pub proof fn lemma_conservation_of_runs(totals: Seq<int>)
    requires
        totals.len() > 0,
        forall|i: int| 0 <= i < totals.len() - 1 ==> totals[i + 1] == #[trigger] totals[i],
    ensures
        totals.last() == totals.first(),
    decreases totals.len(),
{
    if totals.len() > 1 {
        lemma_conservation_of_runs(totals.drop_last());
    }
}

/// The history query is complete and ordered: it returns transfers that
/// touch the address and nothing else, every touching transfer of the log
/// is in it, and it runs newest first (strictly descending ids, and ids
/// order the log oldest first).
pub proof fn lemma_history_complete_and_ordered(log: Seq<TransferView>, a: Seq<char>)
    requires
        forall|i: int, j: int| 0 <= i < j < log.len() ==> log[i].id < log[j].id,
    ensures
        forall|k: int|
            0 <= k < history_view(log, a).len() ==> touches(#[trigger] history_view(log, a)[k], a)
                && log.contains(history_view(log, a)[k]),
        forall|i: int|
            0 <= i < log.len() && touches(#[trigger] log[i], a) ==> history_view(log, a).contains(
                log[i],
            ),
        forall|p: int, q: int|
            0 <= p < q < history_view(log, a).len() ==> history_view(log, a)[p].id > history_view(
                log,
                a,
            )[q].id,
    decreases log.len(),
{
    if log.len() > 0 {
        let rest = log.drop_first();
        let h = history_view(log, a);
        let hr = history_view(rest, a);
        assert(forall|i: int| 0 <= i < rest.len() ==> rest[i] == log[i + 1]);
        lemma_history_complete_and_ordered(rest, a);
        // every element of the rest's history carries an id above the
        // first record's, because it sits deeper in the log
        assert forall|k: int| 0 <= k < hr.len() implies hr[k].id > log.first().id by {
            assert(rest.contains(hr[k]));
            let i = choose|i: int| 0 <= i < rest.len() && rest[i] == hr[k];
            assert(log[i + 1] == hr[k]);
        }
        // membership in the rest's log lifts to membership in the log
        assert forall|k: int| 0 <= k < hr.len() implies log.contains(hr[k]) by {
            let i = choose|i: int| 0 <= i < rest.len() && rest[i] == hr[k];
            assert(log[i + 1] == hr[k]);
        }
        if touches(log.first(), a) {
            assert(h == hr.push(log.first()));
            assert(forall|k: int| 0 <= k < hr.len() ==> h[k] == hr[k]);
            assert(h[h.len() - 1] == log.first());
            assert(log.contains(log.first())) by {
                assert(log[0] == log.first());
            }
            assert forall|i: int| 0 <= i < log.len() && touches(#[trigger] log[i], a) implies h
                .contains(log[i]) by {
                if i == 0 {
                    assert(h[h.len() - 1] == log[0]);
                } else {
                    assert(rest[i - 1] == log[i]);
                    assert(hr.contains(log[i]));
                    let k = choose|k: int| 0 <= k < hr.len() && hr[k] == log[i];
                    assert(h[k] == log[i]);
                }
            }
        } else {
            assert(h == hr);
            assert forall|i: int| 0 <= i < log.len() && touches(#[trigger] log[i], a) implies h
                .contains(log[i]) by {
                assert(i != 0);
                assert(rest[i - 1] == log[i]);
            }
        }
    }
}

} // verus!
