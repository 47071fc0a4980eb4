use std::collections::HashMap;

use vstd::prelude::*;

use crate::account::{
    Account, AccountModel, AccountState, IsLocked, empty_model, lemma_run_keeps_id, run,
};
use crate::transaction::{AccountId, Transaction};

verus! {

broadcast use vstd::std_specs::hash::group_hash_axioms;

/// The transactions of `txs` addressed to the account `id`, in their order.
pub open spec fn for_account(txs: Seq<Transaction>, id: u16) -> Seq<Transaction>
    decreases txs.len(),
{
    if txs.len() == 0 {
        Seq::empty()
    } else if txs.last().target_account_id.0 == id {
        for_account(txs.drop_last(), id).push(txs.last())
    } else {
        for_account(txs.drop_last(), id)
    }
}

/// Appending one transaction extends the subsequence of its own account only.
pub proof fn lemma_for_account_push(txs: Seq<Transaction>, tx: Transaction, id: u16)
    ensures
        for_account(txs.push(tx), id) == if tx.target_account_id.0 == id {
            for_account(txs, id).push(tx)
        } else {
            for_account(txs, id)
        },
{
    assert(txs.push(tx).drop_last() =~= txs);
}

/// Cross-account independence: an account's own transactions, taken out of
/// the input and fed alone, are again exactly that account's transactions
/// and hold none of any other account. So the broker gives each account the
/// same final state whether its transactions come mixed with others' or
/// alone, and running one account's transactions alone yields that account
/// only.
pub proof fn lemma_account_subsequence_alone(txs: Seq<Transaction>, id: u16)
    ensures
        for_account(for_account(txs, id), id) == for_account(txs, id),
        forall|other: u16| other != id ==> #[trigger] for_account(for_account(txs, id), other)
            == Seq::<Transaction>::empty(),
        forall|t: int|
            0 <= t < for_account(txs, id).len() ==> #[trigger] for_account(
                txs,
                id,
            )[t].target_account_id.0 == id,
    decreases txs.len(),
{
    if txs.len() > 0 {
        let prefix = txs.drop_last();
        lemma_account_subsequence_alone(prefix, id);
        let sub = for_account(prefix, id);
        if txs.last().target_account_id.0 == id {
            lemma_for_account_push(sub, txs.last(), id);
            assert forall|other: u16| other != id implies #[trigger] for_account(
                for_account(txs, id),
                other,
            ) == Seq::<Transaction>::empty() by {
                lemma_for_account_push(sub, txs.last(), other);
                assert(for_account(sub, other) == Seq::<Transaction>::empty());
            }
            assert forall|t: int| 0 <= t < for_account(txs, id).len() implies #[trigger] for_account(
                txs,
                id,
            )[t].target_account_id.0 == id by {
                if t < sub.len() {
                    assert(for_account(txs, id)[t] == sub[t]);
                }
            }
        }
    }
}

/// `st` is the observable part of the model `m`.
pub open spec fn shows(st: AccountState, m: AccountModel) -> bool {
    &&& st.id.0 == m.id
    &&& st.available@ == m.available
    &&& st.held@ == m.held
    &&& (st.is_locked == IsLocked::Locked) == m.locked
}

/// Routes an ordered stream of transactions to one worker per account.
/// Worker `k` serves the account `accounts()[k]`; the first transaction of
/// an account opens its worker.
pub struct Dispatcher {
    workers: Vec<AccountId>,
    index: HashMap<u16, usize>,
    history: Ghost<Seq<Transaction>>,
    queues: Ghost<Seq<Seq<Transaction>>>,
}

impl Dispatcher {
    /// The account of each worker, by worker index.
    pub closed spec fn accounts(&self) -> Seq<u16> {
        self.workers@.map_values(|a: AccountId| a.0)
    }

    /// Every transaction routed so far, in routing order.
    pub closed spec fn history(&self) -> Seq<Transaction> {
        self.history@
    }

    /// The transactions handed to each worker, in the order handed.
    pub closed spec fn queues(&self) -> Seq<Seq<Transaction>> {
        self.queues@
    }

    /// The routing invariant.
    pub closed spec fn wf(&self) -> bool {
        &&& self.queues@.len() == self.workers@.len()
        &&& forall|a: u16| #[trigger]
            self.index@.contains_key(a) ==> self.index@[a] < self.workers@.len()
                && self.workers@[self.index@[a] as int].0 == a
        &&& forall|k: int|
            0 <= k < self.workers@.len() ==> #[trigger] self.index@.contains_key(
                self.workers@[k].0,
            ) && self.index@[self.workers@[k].0] == k
        &&& forall|k: int|
            0 <= k < self.workers@.len() ==> #[trigger] self.queues@[k] == for_account(
                self.history@,
                self.workers@[k].0,
            )
        &&& forall|i: int|
            0 <= i < self.history@.len() ==> self.index@.contains_key(
                #[trigger] self.history@[i].target_account_id.0,
            )
        &&& forall|k: int|
            0 <= k < self.workers@.len() ==> #[trigger] self.queues@[k].len() > 0
    }

    /// A dispatcher that has routed nothing.
    pub fn new() -> (r: Dispatcher)
        ensures
            r.wf(),
            r.accounts() == Seq::<u16>::empty(),
            r.history() == Seq::<Transaction>::empty(),
    {
        let r = Dispatcher {
            workers: Vec::new(),
            index: HashMap::new(),
            history: Ghost(Seq::empty()),
            queues: Ghost(Seq::empty()),
        };
        assert(r.accounts() =~= Seq::<u16>::empty());
        r
    }

    /// Routes `tx` to the worker of its account and returns that worker's
    /// index, and whether the worker is new (the account's first
    /// transaction), in which case it is the next index.
    pub fn route(&mut self, tx: &Transaction) -> (r: (usize, bool))
        requires
            old(self).wf(),
            old(self).accounts().len() < usize::MAX,
        ensures
            final(self).wf(),
            final(self).history() == old(self).history().push(*tx),
            r.1 == !old(self).accounts().contains(tx.target_account_id.0),
            r.1 ==> r.0 == old(self).accounts().len() && final(self).accounts() == old(
                self,
            ).accounts().push(tx.target_account_id.0),
            !r.1 ==> r.0 < old(self).accounts().len() && old(self).accounts()[r.0 as int]
                == tx.target_account_id.0 && final(self).accounts() == old(self).accounts(),
            r.0 < final(self).accounts().len(),
            final(self).queues() == if r.1 {
                old(self).queues().push(seq![*tx])
            } else {
                old(self).queues().update(r.0 as int, old(self).queues()[r.0 as int].push(*tx))
            },
    {
        let id = tx.target_account_id.0;
        let ghost old_history = self.history@;
        let ghost old_queues = self.queues@;
        proof {
            assert forall|k: int| 0 <= k < self.workers@.len() implies for_account(
                old_history.push(*tx),
                #[trigger] self.workers@[k].0,
            ) == if self.workers@[k].0 == id {
                old_queues[k].push(*tx)
            } else {
                old_queues[k]
            } by {
                lemma_for_account_push(old_history, *tx, self.workers@[k].0);
            }
        }
        match self.index.get(&id) {
            Some(k) => {
                let k = *k;
                proof {
                    self.history@ = old_history.push(*tx);
                    self.queues@ = old_queues.update(k as int, old_queues[k as int].push(*tx));
                    assert(self.accounts()[k as int] == id);
                    assert(self.accounts().contains(id));
                    assert forall|i: int|
                        0 <= i < self.history@.len() implies self.index@.contains_key(
                        #[trigger] self.history@[i].target_account_id.0,
                    ) by {
                        if i < old_history.len() {
                            assert(self.history@[i] == old_history[i]);
                        }
                    }
                }
                (k, false)
            },
            None => {
                let k = self.workers.len();
                proof {
                    if self.accounts().contains(id) {
                        let j = choose|j: int|
                            0 <= j < self.accounts().len() && self.accounts()[j] == id;
                        assert(self.workers@[j].0 == id);
                    }
                }
                self.workers.push(tx.target_account_id);
                self.index.insert(id, k);
                proof {
                    lemma_for_account_push(old_history, *tx, id);
                    assert(for_account(old_history, id) =~= Seq::<Transaction>::empty()) by {
                        lemma_for_account_absent(old_history, id);
                    }
                    self.history@ = old_history.push(*tx);
                    self.queues@ = old_queues.push(seq![*tx]);
                    assert(seq![*tx] =~= Seq::<Transaction>::empty().push(*tx));
                    assert forall|i: int|
                        0 <= i < self.history@.len() implies self.index@.contains_key(
                        #[trigger] self.history@[i].target_account_id.0,
                    ) by {
                        if i < old_history.len() {
                            assert(self.history@[i] == old_history[i]);
                        }
                    }
                    assert forall|k2: int|
                        0 <= k2 < self.workers@.len() implies #[trigger] self.index@.contains_key(
                        self.workers@[k2].0,
                    ) && self.index@[self.workers@[k2].0] == k2 by {
                        if k2 < k {
                            assert(self.workers@[k2] == old(self).workers@[k2]);
                        }
                    }
                    assert(self.accounts() =~= old(self).accounts().push(id));
                }
                (k, true)
            },
        }
    }
}

/// Per-account ordering: whatever has been routed, each worker has been handed
/// exactly the transactions of its own account, in their input order; no two
/// workers serve one account, and every routed transaction's account has a
/// worker.
pub proof fn lemma_workers_see_input_order(d: &Dispatcher)
    requires
        d.wf(),
    ensures
        d.queues().len() == d.accounts().len(),
        forall|k: int|
            0 <= k < d.accounts().len() ==> #[trigger] d.queues()[k] == for_account(
                d.history(),
                d.accounts()[k],
            ),
        forall|k: int, j: int|
            0 <= k < j < d.accounts().len() ==> #[trigger] d.accounts()[k] != #[trigger] d.accounts()[j],
        forall|i: int|
            0 <= i < d.history().len() ==> d.accounts().contains(
                #[trigger] d.history()[i].target_account_id.0,
            ),
{
    assert forall|k: int| 0 <= k < d.accounts().len() implies #[trigger] d.queues()[k]
        == for_account(d.history(), d.accounts()[k]) by {
        assert(d.accounts()[k] == d.workers@[k].0);
    }
    assert forall|k: int, j: int|
        0 <= k < j < d.accounts().len() implies #[trigger] d.accounts()[k] != #[trigger] d.accounts()[j] by {
        assert(d.accounts()[k] == d.workers@[k].0);
        assert(d.accounts()[j] == d.workers@[j].0);
        assert(d.index@.contains_key(d.workers@[k].0));
        assert(d.index@.contains_key(d.workers@[j].0));
    }
    assert forall|i: int| 0 <= i < d.history().len() implies d.accounts().contains(
        #[trigger] d.history()[i].target_account_id.0,
    ) by {
        let a = d.history()[i].target_account_id.0;
        let k = d.index@[a];
        assert(d.accounts()[k as int] == a);
    }
}

/// Applies an ordered sequence of transactions, one account at a time, and
/// returns the final state of every account that any transaction addresses,
/// each once, in no particular order. Refused transactions leave no trace.
/// Each account ends exactly as if its own transactions had been applied
/// alone, in their input order, to a new account.
pub fn transaction_broker_sync(transaction_requests: Vec<Transaction>) -> (r: Vec<AccountState>)
    requires
        transaction_requests.len() < usize::MAX,
    ensures
        forall|i: int, j: int| 0 <= i < j < r.len() ==> r[i].id != r[j].id,
        forall|t: int|
            #![trigger transaction_requests[t]]
            0 <= t < transaction_requests.len() ==> exists|i: int|
                #![trigger r[i]]
                0 <= i < r.len() && r[i].id == transaction_requests[t].target_account_id,
        forall|i: int|
            #![trigger r[i]]
            0 <= i < r.len() ==> exists|t: int|
                #![trigger transaction_requests[t]]
                0 <= t < transaction_requests.len() && transaction_requests[t].target_account_id
                    == r[i].id,
        forall|i: int|
            0 <= i < r.len() ==> shows(
                #[trigger] r[i],
                run(empty_model(r[i].id.0), for_account(transaction_requests@, r[i].id.0)),
            ),
{
    let mut dispatcher = Dispatcher::new();
    let mut accounts: Vec<Account> = Vec::new();
    let mut i: usize = 0;
    while i < transaction_requests.len()
        invariant
            i <= transaction_requests.len() < usize::MAX,
            dispatcher.wf(),
            dispatcher.history() == transaction_requests@.subrange(0, i as int),
            accounts.len() == dispatcher.accounts().len(),
            dispatcher.accounts().len() <= i,
            forall|k: int|
                0 <= k < accounts.len() ==> #[trigger] accounts[k]@ == run(
                    empty_model(dispatcher.accounts()[k]),
                    dispatcher.queues()[k],
                ),
        decreases transaction_requests.len() - i,
    {
        let tx = transaction_requests[i];
        let ghost before = accounts@;
        let ghost old_queues = dispatcher.queues();
        let (k, fresh) = dispatcher.route(&tx);
        if fresh {
            accounts.push(Account::from_id(tx.target_account_id));
        }
        proof {
            if fresh {
                assert(seq![tx].drop_last() =~= Seq::<Transaction>::empty());
            } else {
                assert(old_queues[k as int].push(tx).drop_last() =~= old_queues[k as int]);
            }
        }
        let ghost mid = accounts@;
        proof {
            assert(mid[k as int]@ == run(
                empty_model(dispatcher.accounts()[k as int]),
                dispatcher.queues()[k as int].drop_last(),
            ));
        }
        let _ = accounts[k].try_apply_transaction(tx);
        proof {
            assert(dispatcher.queues()[k as int].last() == tx);
            assert(accounts[k as int]@ == run(
                empty_model(dispatcher.accounts()[k as int]),
                dispatcher.queues()[k as int],
            ));
            assert forall|k2: int| 0 <= k2 < accounts.len() implies #[trigger] accounts[k2]@ == run(
                empty_model(dispatcher.accounts()[k2]),
                dispatcher.queues()[k2],
            ) by {
                if k2 != k {
                    assert(accounts[k2] == mid[k2]);
                    assert(mid[k2] == before[k2]);
                }
            }
        }
        i = i + 1;
        assert(transaction_requests@.subrange(0, i as int) =~= transaction_requests@.subrange(
            0,
            i - 1,
        ).push(tx));
    }
    assert(transaction_requests@.subrange(0, i as int) =~= transaction_requests@);
    proof {
        lemma_workers_see_input_order(&dispatcher);
    }
    let ghost ids = dispatcher.accounts();
    let ghost orig = accounts@;
    let ghost n = accounts.len() as int;
    let mut states: Vec<AccountState> = Vec::new();
    while accounts.len() > 0
        invariant
            accounts@ == orig.subrange(0, accounts.len() as int),
            accounts.len() + states.len() == n,
            n == orig.len(),
            forall|j: int| 0 <= j < states.len() ==> shows(#[trigger] states[j], orig[n - 1 - j]@),
        decreases accounts.len(),
    {
        let account = accounts.pop().unwrap();
        states.push(account.into_state());
    }
    proof {
        assert forall|j: int| 0 <= j < states.len() implies #[trigger] states[j].id.0 == ids[n - 1 - j]
            && shows(
            states[j],
            run(empty_model(ids[n - 1 - j]), for_account(transaction_requests@, ids[n - 1 - j])),
        ) by {
            lemma_run_keeps_id(empty_model(ids[n - 1 - j]), dispatcher.queues()[n - 1 - j]);
        }
        assert forall|t: int| #![trigger transaction_requests[t]] 0 <= t < transaction_requests.len() implies exists|i: int|
            #![trigger states[i]]
            0 <= i < states.len() && states[i].id == transaction_requests[t].target_account_id by {
            assert(dispatcher.history()[t] == transaction_requests[t]);
            let a = transaction_requests[t].target_account_id.0;
            assert(ids.contains(a));
            let k = choose|k: int| 0 <= k < ids.len() && ids[k] == a;
            assert(states[n - 1 - k].id.0 == a);
            assert(states[n - 1 - k].id == transaction_requests[t].target_account_id);
        }
        assert forall|i: int| #![trigger states[i]] 0 <= i < states.len() implies exists|t: int|
            #![trigger transaction_requests[t]]
            0 <= t < transaction_requests.len() && transaction_requests[t].target_account_id
                == states[i].id by {
            let k = n - 1 - i;
            assert(dispatcher.queues()[k].len() > 0);
            lemma_for_account_nonempty(transaction_requests@, ids[k]);
            let t = choose|t: int|
                0 <= t < transaction_requests@.len()
                    && #[trigger] transaction_requests@[t].target_account_id.0 == ids[k];
            assert(transaction_requests[t].target_account_id == states[i].id);
        }
    }
    states
}

/// An account with transactions has one in the input.
proof fn lemma_for_account_nonempty(txs: Seq<Transaction>, id: u16)
    requires
        for_account(txs, id).len() > 0,
    ensures
        exists|t: int| 0 <= t < txs.len() && #[trigger] txs[t].target_account_id.0 == id,
    decreases txs.len(),
{
    if txs.last().target_account_id.0 != id {
        lemma_for_account_nonempty(txs.drop_last(), id);
        let t = choose|t: int| 0 <= t < txs.len() - 1 && #[trigger] txs.drop_last()[t].target_account_id.0 == id;
        assert(txs[t] == txs.drop_last()[t]);
    } else {
        assert(txs[txs.len() - 1].target_account_id.0 == id);
    }
}

/// An account that no transaction of `txs` addresses has an empty
/// subsequence.
proof fn lemma_for_account_absent(txs: Seq<Transaction>, id: u16)
    requires
        forall|i: int| 0 <= i < txs.len() ==> #[trigger] txs[i].target_account_id.0 != id,
    ensures
        for_account(txs, id) == Seq::<Transaction>::empty(),
    decreases txs.len(),
{
    if txs.len() > 0 {
        assert(txs.last() == txs[txs.len() - 1]);
        lemma_for_account_absent(txs.drop_last(), id);
    }
}

} // verus!
