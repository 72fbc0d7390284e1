//! The ledger store: a mapping of address to balance plus an append-only
//! transfer log, with read-modify-write inside an atomic transaction.
//!
//! Balances are modelled as a map from the address's characters to a
//! mathematical integer; the log as a sequence of record images, oldest
//! first. The store's id counter doubles as its logical clock, so every
//! committed record is stamped with its own id and timestamps strictly
//! increase along the log.

use vstd::prelude::*;

use crate::domain::RequestView;
use crate::domain::Transfer;
use crate::domain::TransferError;
use crate::domain::TransferRequest;
use crate::domain::TransferView;
use crate::domain::Wallet;

verus! {

/// The balance map that a sequence of wallet records denotes.
pub open spec fn wallet_map(s: Seq<Wallet>) -> Map<Seq<char>, int>
    decreases s.len(),
{
    if s.len() == 0 {
        Map::empty()
    } else {
        wallet_map(s.drop_last()).insert(s.last().address@, s.last().balance as int)
    }
}

/// The balance recorded for `a`, or the zero default when no record exists.
pub open spec fn balance_or_zero(m: Map<Seq<char>, int>, a: Seq<char>) -> int {
    if m.contains_key(a) {
        m[a]
    } else {
        0
    }
}

/// The sum of all recorded balances.
pub open spec fn sum_balances(s: Seq<Wallet>) -> int
    decreases s.len(),
{
    if s.len() == 0 {
        0
    } else {
        sum_balances(s.drop_last()) + s.last().balance
    }
}

/// Addresses are a unique key: no two records share one.
pub open spec fn unique_addresses(s: Seq<Wallet>) -> bool {
    forall|i: int, j: int| 0 <= i < j < s.len() ==> s[i].address@ != s[j].address@
}

/// Every recorded balance is non-negative.
pub open spec fn nonnegative_balances(s: Seq<Wallet>) -> bool {
    forall|i: int| 0 <= i < s.len() ==> s[i].balance >= 0
}

/// Whether `t` touches address `a` as sender or receiver.
pub open spec fn touches(t: TransferView, a: Seq<char>) -> bool {
    t.from == a || t.to == a
}

/// The transfers among `log` (oldest first) that touch `a`, newest first.
pub open spec fn history_view(log: Seq<TransferView>, a: Seq<char>) -> Seq<TransferView>
    decreases log.len(),
{
    if log.len() == 0 {
        Seq::empty()
    } else {
        let rest = history_view(log.drop_first(), a);
        if touches(log.first(), a) {
            rest.push(log.first())
        } else {
            rest
        }
    }
}

/// The records that committing `reqs` appends: ids are assigned
/// consecutively from `first_id`, and the logical clock stamps each record
/// with its id.
pub open spec fn committed_records(reqs: Seq<RequestView>, first_id: int) -> Seq<TransferView>
    decreases reqs.len(),
{
    if reqs.len() == 0 {
        Seq::empty()
    } else {
        committed_records(reqs.drop_last(), first_id).push(
            TransferView {
                id: first_id + reqs.len() - 1,
                from: reqs.last().from,
                to: reqs.last().to,
                amount: reqs.last().amount,
                timestamp: Some(first_id + reqs.len() - 1),
            },
        )
    }
}

proof fn lemma_wallet_map_index(s: Seq<Wallet>, i: int)
    requires
        unique_addresses(s),
        0 <= i < s.len(),
    ensures
        wallet_map(s).contains_key(s[i].address@),
        wallet_map(s)[s[i].address@] == s[i].balance as int,
    decreases s.len(),
{
    if i < s.len() - 1 {
        assert(s.drop_last()[i] == s[i]);
        lemma_wallet_map_index(s.drop_last(), i);
        assert(s[i].address@ != s[s.len() - 1].address@);
    }
}

proof fn lemma_wallet_map_absent(s: Seq<Wallet>, a: Seq<char>)
    requires
        forall|i: int| 0 <= i < s.len() ==> s[i].address@ != a,
    ensures
        !wallet_map(s).contains_key(a),
    decreases s.len(),
{
    if s.len() > 0 {
        lemma_wallet_map_absent(s.drop_last(), a);
        assert(s[s.len() - 1].address@ != a);
    }
}

proof fn lemma_wallet_map_domain(s: Seq<Wallet>, a: Seq<char>)
    requires
        wallet_map(s).contains_key(a),
    ensures
        exists|i: int| 0 <= i < s.len() && s[i].address@ == a,
    decreases s.len(),
{
    if s.last().address@ != a {
        lemma_wallet_map_domain(s.drop_last(), a);
        let i = choose|i: int| 0 <= i < s.drop_last().len() && s.drop_last()[i].address@ == a;
        assert(s[i].address@ == a);
    } else {
        assert(s[s.len() - 1].address@ == a);
    }
}

proof fn lemma_sum_nonneg(s: Seq<Wallet>)
    requires
        nonnegative_balances(s),
    ensures
        sum_balances(s) >= 0,
    decreases s.len(),
{
    if s.len() > 0 {
        assert(nonnegative_balances(s.drop_last()));
        lemma_sum_nonneg(s.drop_last());
    }
}

proof fn lemma_entry_le_sum(s: Seq<Wallet>, i: int)
    requires
        nonnegative_balances(s),
        0 <= i < s.len(),
    ensures
        s[i].balance <= sum_balances(s),
    decreases s.len(),
{
    assert(nonnegative_balances(s.drop_last()));
    if i == s.len() - 1 {
        lemma_sum_nonneg(s.drop_last());
    } else {
        assert(s.drop_last()[i] == s[i]);
        lemma_entry_le_sum(s.drop_last(), i);
    }
}

proof fn lemma_balance_le_sum(s: Seq<Wallet>, a: Seq<char>)
    requires
        unique_addresses(s),
        nonnegative_balances(s),
    ensures
        0 <= balance_or_zero(wallet_map(s), a) <= sum_balances(s),
{
    lemma_sum_nonneg(s);
    if wallet_map(s).contains_key(a) {
        lemma_wallet_map_domain(s, a);
        let i = choose|i: int| 0 <= i < s.len() && s[i].address@ == a;
        lemma_wallet_map_index(s, i);
        lemma_entry_le_sum(s, i);
    }
}

proof fn lemma_wallet_map_update(s: Seq<Wallet>, i: int, w: Wallet)
    requires
        unique_addresses(s),
        0 <= i < s.len(),
        w.address@ == s[i].address@,
    ensures
        unique_addresses(s.update(i, w)),
        wallet_map(s.update(i, w)) == wallet_map(s).insert(w.address@, w.balance as int),
        sum_balances(s.update(i, w)) == sum_balances(s) - s[i].balance + w.balance,
    decreases s.len(),
{
    let t = s.update(i, w);
    assert(unique_addresses(t)) by {
        assert forall|p: int, q: int| 0 <= p < q < t.len() implies t[p].address@ != t[q].address@ by {
            assert(t[p].address@ == s[p].address@);
            assert(t[q].address@ == s[q].address@);
        }
    }
    if i == s.len() - 1 {
        assert(t.drop_last() =~= s.drop_last());
        assert(t.last() == w);
        assert(wallet_map(t) == wallet_map(s.drop_last()).insert(w.address@, w.balance as int));
        assert(wallet_map(s).insert(w.address@, w.balance as int) =~= wallet_map(
            s.drop_last(),
        ).insert(w.address@, w.balance as int));
    } else {
        assert(t.drop_last() =~= s.drop_last().update(i, w));
        assert(t.last() == s.last());
        assert(s.drop_last()[i] == s[i]);
        assert(unique_addresses(s.drop_last()));
        lemma_wallet_map_update(s.drop_last(), i, w);
        assert(w.address@ != s.last().address@);
        assert(wallet_map(t) == wallet_map(s.drop_last()).insert(w.address@, w.balance as int)
            .insert(s.last().address@, s.last().balance as int));
        assert(wallet_map(s.drop_last()).insert(w.address@, w.balance as int).insert(
            s.last().address@,
            s.last().balance as int,
        ) =~= wallet_map(s.drop_last()).insert(s.last().address@, s.last().balance as int).insert(
            w.address@,
            w.balance as int,
        ));
    }
}

fn find_wallet(wallets: &Vec<Wallet>, address: &String) -> (r: Option<usize>)
    ensures
        match r {
            Some(i) => i < wallets@.len() && wallets@[i as int].address@ == address@,
            None => forall|i: int| 0 <= i < wallets@.len() ==> wallets@[i].address@ != address@,
        },
{
    let mut i: usize = 0;
    while i < wallets.len()
        invariant
            i <= wallets@.len(),
            forall|j: int| 0 <= j < i ==> wallets@[j].address@ != address@,
        decreases wallets@.len() - i,
    {
        if wallets[i].address == *address {
            return Some(i);
        }
        i = i + 1;
    }
    None
}

fn upsert_balance(wallets: &mut Vec<Wallet>, address: &String, balance: i64)
    requires
        unique_addresses(old(wallets)@),
    ensures
        unique_addresses(final(wallets)@),
        wallet_map(final(wallets)@) == wallet_map(old(wallets)@).insert(address@, balance as int),
        sum_balances(final(wallets)@) == sum_balances(old(wallets)@) - balance_or_zero(
            wallet_map(old(wallets)@),
            address@,
        ) + balance,
        nonnegative_balances(old(wallets)@) && balance >= 0 ==> nonnegative_balances(
            final(wallets)@,
        ),
{
    let ghost s0 = wallets@;
    match find_wallet(wallets, address) {
        Some(i) => {
            proof {
                lemma_wallet_map_index(s0, i as int);
            }
            wallets[i].balance = balance;
            proof {
                let w = Wallet { address: s0[i as int].address, balance };
                assert(wallets@ == s0.update(i as int, w));
                lemma_wallet_map_update(s0, i as int, w);
                assert(nonnegative_balances(s0) && balance >= 0 ==> nonnegative_balances(
                    wallets@,
                )) by {
                    if nonnegative_balances(s0) && balance >= 0 {
                        assert forall|k: int| 0 <= k < wallets@.len() implies wallets@[k].balance
                            >= 0 by {
                            if k != i as int {
                                assert(wallets@[k] == s0[k]);
                            }
                        }
                    }
                }
            }
        },
        None => {
            proof {
                lemma_wallet_map_absent(s0, address@);
            }
            wallets.push(Wallet { address: address.clone(), balance });
            proof {
                assert(wallets@.drop_last() =~= s0);
                assert(wallets@.last().address@ == address@);
                assert(unique_addresses(wallets@)) by {
                    assert forall|p: int, q: int| 0 <= p < q < wallets@.len() implies wallets@[p].address@
                        != wallets@[q].address@ by {
                        if q < wallets@.len() - 1 {
                            assert(wallets@[p] == s0[p]);
                            assert(wallets@[q] == s0[q]);
                        } else {
                            assert(wallets@[p] == s0[p]);
                        }
                    }
                }
            }
        },
    }
}

fn clone_wallets(v: &Vec<Wallet>) -> (r: Vec<Wallet>)
    ensures
        r@ == v@,
{
    let mut r: Vec<Wallet> = Vec::new();
    let mut i: usize = 0;
    while i < v.len()
        invariant
            i <= v@.len(),
            r@ == v@.subrange(0, i as int),
        decreases v@.len() - i,
    {
        r.push(v[i].clone());
        proof {
            assert(r@ =~= v@.subrange(0, i as int + 1));
        }
        i = i + 1;
    }
    proof {
        assert(v@.subrange(0, v@.len() as int) =~= v@);
    }
    r
}

fn read_wallet(wallets: &Vec<Wallet>, address: &str) -> (r: Option<Wallet>)
    requires
        unique_addresses(wallets@),
        nonnegative_balances(wallets@),
    ensures
        match r {
            Some(w) => {
                &&& w.address@ == address@
                &&& wallet_map(wallets@).contains_key(address@)
                &&& w.balance as int == wallet_map(wallets@)[address@]
                &&& 0 <= w.balance
                &&& w.balance as int <= sum_balances(wallets@)
            },
            None => !wallet_map(wallets@).contains_key(address@),
        },
{
    let key = address.to_owned();
    match find_wallet(wallets, &key) {
        Some(i) => {
            proof {
                lemma_wallet_map_index(wallets@, i as int);
                lemma_entry_le_sum(wallets@, i as int);
            }
            Some(wallets[i].clone())
        },
        None => {
            proof {
                lemma_wallet_map_absent(wallets@, key@);
            }
            None
        },
    }
}

/// Well-formedness keeps the sum of all balances non-negative and within
/// the balance type; callers working against a transaction need this
/// bound to rule out overflow.
pub proof fn lemma_tx_total_in_range(tx: LedgerTx)
    requires
        tx.wf(),
    ensures
        0 <= tx.total() <= i64::MAX as int,
{
    lemma_sum_nonneg(tx.wallets@);
}

/// The id counter is an `i64`, so the next id a well-formed ledger will
/// assign lies between one and that type's maximum.
pub proof fn lemma_next_id_in_range(l: Ledger)
    requires
        l.wf(),
    ensures
        1 <= l.next_id() <= i64::MAX as int,
{
}

/// A well-formed ledger records no negative balance: every address reads
/// at least the zero default.
pub proof fn lemma_balances_nonneg(l: Ledger)
    requires
        l.wf(),
    ensures
        forall|a: Seq<char>| 0 <= #[trigger] balance_or_zero(l.balances(), a),
{
    assert forall|a: Seq<char>| 0 <= #[trigger] balance_or_zero(l.balances(), a) by {
        lemma_balance_le_sum(l.wallets@, a);
    }
}

/// A well-formed ledger's log runs oldest first with strictly increasing
/// ids, and stamps every record's timestamp with its id — the facts the
/// history ordering law needs about a real ledger.
pub proof fn lemma_log_ordered(l: Ledger)
    requires
        l.wf(),
    ensures
        forall|i: int, j: int| 0 <= i < j < l.log().len() ==> l.log()[i].id < l.log()[j].id,
        forall|i: int|
            0 <= i < l.log().len() ==> (#[trigger] l.log()[i]).timestamp == Some(l.log()[i].id),
{
}

/// The ledger store: per-address balances and the append-only transfer
/// log. Value enters only through `credit`; transfers move it.
pub struct Ledger {
    wallets: Vec<Wallet>,
    transfers: Vec<Transfer>,
    id_counter: i64,
}

/// One atomic unit of work. Balance reads see the transaction's own
/// writes; nothing reaches the ledger until `commit` installs the whole
/// write set, and `rollback` discards it as if it never ran.
pub struct LedgerTx {
    wallets: Vec<Wallet>,
    pending: Vec<TransferRequest>,
}

impl Ledger {
    /// Balance of every address with a record.
    pub closed spec fn balances(self) -> Map<Seq<char>, int> {
        wallet_map(self.wallets@)
    }

    /// The sum of all wallet balances.
    pub closed spec fn total(self) -> int {
        sum_balances(self.wallets@)
    }

    /// The committed transfer records, oldest first.
    pub closed spec fn log(self) -> Seq<TransferView> {
        self.transfers@.map_values(|t: Transfer| t@)
    }

    /// The id the store will assign next.
    pub closed spec fn next_id(self) -> int {
        self.id_counter as int
    }

    /// Well-formedness: addresses are unique keys, balances never go
    /// negative, the total fits the balance type, and the log's ids and
    /// timestamps strictly increase and stay below the id counter.
    pub closed spec fn wf(self) -> bool {
        &&& unique_addresses(self.wallets@)
        &&& nonnegative_balances(self.wallets@)
        &&& sum_balances(self.wallets@) <= i64::MAX as int
        &&& 1 <= self.id_counter
        &&& forall|i: int, j: int|
            0 <= i < j < self.log().len() ==> self.log()[i].id < self.log()[j].id
        &&& forall|i: int|
            0 <= i < self.log().len() ==> 1 <= self.log()[i].id < self.id_counter as int
                && self.log()[i].timestamp == Some(self.log()[i].id)
    }

    /// A fresh ledger: no wallets, an empty log, ids starting at one.
    pub fn new() -> (r: Ledger)
        ensures
            r.wf(),
            r.balances() == Map::<Seq<char>, int>::empty(),
            r.log() == Seq::<TransferView>::empty(),
            r.total() == 0,
            r.next_id() == 1,
    {
        let r = Ledger { wallets: Vec::new(), transfers: Vec::new(), id_counter: 1 };
        proof {
            assert(r.log() =~= Seq::<TransferView>::empty());
        }
        r
    }

    /// Credits `amount` to `address`, creating the wallet on first credit.
    /// This is the external credit by which value enters the system (e.g.
    /// a test fixture); transfers only move value that is already here.
    pub fn credit(&mut self, address: &str, amount: i64)
        requires
            old(self).wf(),
            amount >= 0,
            old(self).total() + amount <= i64::MAX as int,
        ensures
            final(self).wf(),
            final(self).balances() == old(self).balances().insert(
                address@,
                balance_or_zero(old(self).balances(), address@) + amount,
            ),
            final(self).total() == old(self).total() + amount,
            final(self).log() == old(self).log(),
            final(self).next_id() == old(self).next_id(),
    {
        proof {
            lemma_balance_le_sum(self.wallets@, address@);
        }
        let key = address.to_owned();
        let current: i64 = match read_wallet(&self.wallets, address) {
            Some(w) => w.balance,
            None => 0,
        };
        upsert_balance(&mut self.wallets, &key, current + amount);
    }

    /// Non-transactional read of one wallet; absent means no record, and
    /// the caller supplies the zero-balance default.
    pub fn get_wallet(&self, address: &str) -> (r: Option<Wallet>)
        requires
            self.wf(),
        ensures
            match r {
                Some(w) => {
                    &&& w.address@ == address@
                    &&& self.balances().contains_key(address@)
                    &&& w.balance as int == self.balances()[address@]
                    &&& 0 <= w.balance
                    &&& w.balance as int <= self.total()
                },
                None => !self.balances().contains_key(address@),
            },
    {
        read_wallet(&self.wallets, address)
    }

    /// All transfers that touch `address` as sender or receiver, newest
    /// first. Ties cannot arise: timestamps strictly increase along the
    /// log.
    pub fn get_transfers(&self, address: &str) -> (r: Vec<Transfer>)
        ensures
            r@.map_values(|t: Transfer| t@) == history_view(self.log(), address@),
    {
        let key = address.to_owned();
        let ghost log = self.log();
        let mut out: Vec<Transfer> = Vec::new();
        let mut i: usize = self.transfers.len();
        while i > 0
            invariant
                i <= self.transfers@.len(),
                log == self.log(),
                out@.map_values(|t: Transfer| t@) == history_view(
                    log.subrange(i as int, log.len() as int),
                    key@,
                ),
                key@ == address@,
            decreases i,
        {
            i = i - 1;
            let ghost before = out@;
            let t = &self.transfers[i];
            if t.from_address == key || t.to_address == key {
                out.push(t.clone());
            }
            proof {
                let suffix = log.subrange(i as int, log.len() as int);
                assert(suffix.first() == log[i as int]);
                assert(suffix.drop_first() =~= log.subrange(i as int + 1, log.len() as int));
                assert(log[i as int] == self.transfers@[i as int]@);
                if touches(log[i as int], key@) {
                    assert(out@.map_values(|t: Transfer| t@) =~= before.map_values(
                        |t: Transfer| t@,
                    ).push(self.transfers@[i as int]@));
                }
            }
        }
        proof {
            assert(log.subrange(0, log.len() as int) =~= log);
        }
        out
    }

    /// Opens a transaction whose reads start from the current balances.
    pub fn begin_transaction(&self) -> (tx: LedgerTx)
        requires
            self.wf(),
        ensures
            tx.wf(),
            tx.balances() == self.balances(),
            tx.total() == self.total(),
            tx.pending_requests() == Seq::<RequestView>::empty(),
    {
        let tx = LedgerTx { wallets: clone_wallets(&self.wallets), pending: Vec::new() };
        proof {
            assert(tx.pending_requests() =~= Seq::<RequestView>::empty());
        }
        tx
    }

    /// Atomically installs a transaction: every queued balance write and
    /// every queued record become visible together — or, when the store
    /// cannot assign ids to all queued records, nothing does and the
    /// attempt fails with `StoreError`.
    pub fn commit(&mut self, tx: LedgerTx) -> (r: Result<(), TransferError>)
        requires
            old(self).wf(),
            tx.wf(),
        ensures
            final(self).wf(),
            r is Ok <==> tx.pending_requests().len() <= i64::MAX as int - old(self).next_id(),
            r is Err ==> r->Err_0 == TransferError::StoreError && *final(self) == *old(self),
            r is Ok ==> final(self).balances() == tx.balances() && final(self).total()
                == tx.total() && final(self).log() == old(self).log() + committed_records(
                tx.pending_requests(),
                old(self).next_id(),
            ) && final(self).next_id() == old(self).next_id() + tx.pending_requests().len(),
    {
        let ghost l0 = *old(self);
        let LedgerTx { wallets, pending } = tx;
        let avail: i64 = i64::MAX - self.id_counter;
        if pending.len() as u64 > avail as u64 {
            return Err(TransferError::StoreError);
        }
        self.wallets = wallets;
        proof {
            assert(committed_records(tx.pending_requests().subrange(0, 0), l0.next_id())
                == Seq::<TransferView>::empty());
            assert(self.log() + Seq::<TransferView>::empty() =~= self.log());
            assert(self.log() == l0.log());
        }
        let mut j: usize = 0;
        while j < pending.len()
            invariant
                j <= pending@.len(),
                pending@ == tx.pending@,
                pending@.len() <= i64::MAX as int - l0.next_id(),
                self.id_counter as int == l0.next_id() + j,
                self.wallets@ == tx.wallets@,
                self.wf(),
                self.log() == l0.log() + committed_records(
                    tx.pending_requests().subrange(0, j as int),
                    l0.next_id(),
                ),
            decreases pending@.len() - j,
        {
            let ghost log_before = self.log();
            let req = &pending[j];
            let id = self.id_counter;
            self.transfers.push(
                Transfer {
                    id,
                    from_address: req.from.clone(),
                    to_address: req.to.clone(),
                    amount: req.amount,
                    timestamp: Some(id),
                },
            );
            self.id_counter = id + 1;
            proof {
                let rec = TransferView {
                    id: id as int,
                    from: req.from@,
                    to: req.to@,
                    amount: req.amount as int,
                    timestamp: Some(id as int),
                };
                assert(self.log() =~= log_before.push(rec));
                let prefix = tx.pending_requests().subrange(0, j as int + 1);
                assert(prefix.drop_last() =~= tx.pending_requests().subrange(0, j as int));
                assert(prefix.last() == tx.pending_requests()[j as int]);
                assert(tx.pending_requests()[j as int] == pending@[j as int]@);
                assert(committed_records(prefix, l0.next_id()) == committed_records(
                    prefix.drop_last(),
                    l0.next_id(),
                ).push(rec));
                assert(self.log() =~= l0.log() + committed_records(prefix, l0.next_id()));
            }
            j = j + 1;
        }
        proof {
            assert(tx.pending_requests().subrange(0, tx.pending_requests().len() as int)
                =~= tx.pending_requests());
        }
        Ok(())
    }
}

impl LedgerTx {
    /// The balances as this transaction sees them: the snapshot plus its
    /// own writes.
    pub closed spec fn balances(self) -> Map<Seq<char>, int> {
        wallet_map(self.wallets@)
    }

    /// The sum of all balances as this transaction sees them.
    pub closed spec fn total(self) -> int {
        sum_balances(self.wallets@)
    }

    /// The transfer records queued for the commit to append.
    pub closed spec fn pending_requests(self) -> Seq<RequestView> {
        self.pending@.map_values(|r: TransferRequest| r@)
    }

    /// Same balance well-formedness as the ledger's.
    pub closed spec fn wf(self) -> bool {
        &&& unique_addresses(self.wallets@)
        &&& nonnegative_balances(self.wallets@)
        &&& sum_balances(self.wallets@) <= i64::MAX as int
    }

    /// Transactional read: sees this transaction's own earlier writes.
    pub fn get_wallet(&self, address: &str) -> (r: Option<Wallet>)
        requires
            self.wf(),
        ensures
            match r {
                Some(w) => {
                    &&& w.address@ == address@
                    &&& self.balances().contains_key(address@)
                    &&& w.balance as int == self.balances()[address@]
                    &&& 0 <= w.balance
                    &&& w.balance as int <= self.total()
                },
                None => !self.balances().contains_key(address@),
            },
    {
        read_wallet(&self.wallets, address)
    }

    /// Sets `address`'s balance inside the transaction: insert-if-absent,
    /// else overwrite — the caller supplies the fully computed balance.
    pub fn update_balance(&mut self, address: &str, balance: i64)
        requires
            old(self).wf(),
            balance >= 0,
            old(self).total() - balance_or_zero(old(self).balances(), address@) + balance
                <= i64::MAX as int,
        ensures
            final(self).wf(),
            final(self).balances() == old(self).balances().insert(address@, balance as int),
            final(self).total() == old(self).total() - balance_or_zero(
                old(self).balances(),
                address@,
            ) + balance,
            final(self).pending_requests() == old(self).pending_requests(),
    {
        let key = address.to_owned();
        upsert_balance(&mut self.wallets, &key, balance);
    }

    /// Queues the transfer record for the commit to append; the store
    /// assigns id and timestamp at commit time.
    pub fn record_transfer(&mut self, req: &TransferRequest)
        ensures
            final(self).wf() == old(self).wf(),
            final(self).balances() == old(self).balances(),
            final(self).total() == old(self).total(),
            final(self).pending_requests() == old(self).pending_requests().push(req@),
    {
        let ghost before = self.pending@;
        self.pending.push(req.clone());
        proof {
            assert(self.pending@.map_values(|r: TransferRequest| r@) =~= before.map_values(
                |r: TransferRequest| r@,
            ).push(req@));
        }
    }

    /// Discards the transaction: none of its writes reaches the ledger.
    pub fn rollback(self) {
        let _ = self;
    }
}

} // verus!
