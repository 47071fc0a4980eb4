use vstd::arithmetic::div_mod::lemma_fundamental_div_mod_converse;
use vstd::prelude::*;

use crate::amount::Amount;
use crate::transaction::{
    AccountId, ChargeBack, Dispute, Resolve, Transaction, TransactionId, TransactionKind,
};

verus! {

/// One step of a transaction pattern. Deposits and withdrawals carry a whole
/// amount; disputes, resolves and chargebacks carry the position, within the
/// same cycle of the pattern, of the deposit they target.
#[derive(Debug, Clone, Copy, PartialEq, Eq, Structural)]
pub enum TransactionRequestCompressed {
    Deposit(u64),
    Withdraw(u64),
    Dispute(u32),
    Resolve(u32),
    ChargeBack(u32),
}

/// A pattern that can be expanded `num_of_cycles` times: at most `u32::MAX`
/// transactions, amounts above zero, and every target identifier within
/// `u32` in the last cycle.
pub open spec fn pattern_ok(pattern: Seq<TransactionRequestCompressed>, num_of_cycles: u32) -> bool {
    let total = pattern.len() * num_of_cycles;
    &&& total <= u32::MAX
    &&& forall|j: int|
        0 <= j < pattern.len() ==> match #[trigger] pattern[j] {
            TransactionRequestCompressed::Deposit(a) => a > 0,
            TransactionRequestCompressed::Withdraw(a) => a > 0,
            TransactionRequestCompressed::Dispute(p) => p + total - pattern.len() <= u32::MAX,
            TransactionRequestCompressed::Resolve(p) => p + total - pattern.len() <= u32::MAX,
            TransactionRequestCompressed::ChargeBack(p) => p + total - pattern.len() <= u32::MAX,
        }
}

/// `tx` is the request `request` of account `account_id` expanded at
/// position `index` of a cycle that starts at position `start`: deposits and
/// withdrawals take `index` as their identifier, the other kinds target
/// `start` plus their pattern position.
pub open spec fn expands_to(
    tx: Transaction,
    account_id: AccountId,
    request: TransactionRequestCompressed,
    index: int,
    start: int,
) -> bool {
    &&& tx.target_account_id == account_id
    &&& match request {
        TransactionRequestCompressed::Deposit(a) => match tx.kind {
            TransactionKind::Deposit(d) => d@ == (index as u32, (a * 10000) as nat),
            _ => false,
        },
        TransactionRequestCompressed::Withdraw(a) => match tx.kind {
            TransactionKind::Withdraw(w) => w@ == (index as u32, (a * 10000) as nat),
            _ => false,
        },
        TransactionRequestCompressed::Dispute(p) => tx.kind == TransactionKind::Dispute(
            Dispute { target_tx_id: TransactionId((p + start) as u32) },
        ),
        TransactionRequestCompressed::Resolve(p) => tx.kind == TransactionKind::Resolve(
            Resolve { target_tx_id: TransactionId((p + start) as u32) },
        ),
        TransactionRequestCompressed::ChargeBack(p) => tx.kind == TransactionKind::ChargeBack(
            ChargeBack { target_tx_id: TransactionId((p + start) as u32) },
        ),
    }
}

/// `tx` is transaction `index` of account `account_id` when `pattern` is
/// repeated in cycles.
pub open spec fn is_pattern_tx(
    tx: Transaction,
    account_id: AccountId,
    pattern: Seq<TransactionRequestCompressed>,
    index: int,
) -> bool {
    expands_to(
        tx,
        account_id,
        pattern[index % (pattern.len() as int)],
        index,
        index - index % (pattern.len() as int),
    )
}

/// Expands `pattern`, repeated `num_of_cycles` times, into transactions of
/// one account; a transaction's position is its identifier.
pub fn pattern_iter(
    account_id: AccountId,
    pattern: Vec<TransactionRequestCompressed>,
    num_of_cycles: u32,
) -> (r: Vec<Transaction>)
    requires
        pattern_ok(pattern@, num_of_cycles),
    ensures
        r.len() == pattern.len() * num_of_cycles,
        forall|i: int| 0 <= i < r.len() ==> is_pattern_tx(#[trigger] r[i], account_id, pattern@, i),
{
    let len = pattern.len();
    let mut out: Vec<Transaction> = Vec::new();
    if len == 0 {
        return out;
    }
    let ghost total = len * num_of_cycles;
    let mut cycle: u32 = 0;
    let mut start: usize = 0;
    while cycle < num_of_cycles
        invariant
            len == pattern.len() > 0,
            pattern_ok(pattern@, num_of_cycles),
            total == len * num_of_cycles,
            cycle <= num_of_cycles,
            start == cycle * len,
            out.len() == start,
            forall|i: int|
                0 <= i < out.len() ==> is_pattern_tx(#[trigger] out[i], account_id, pattern@, i),
        decreases num_of_cycles - cycle,
    {
        assert(start + len <= total) by (nonlinear_arith)
            requires
                start == cycle * len,
                cycle < num_of_cycles,
                total == len * num_of_cycles,
        ;
        let mut j: usize = 0;
        while j < len
            invariant
                len == pattern.len() > 0,
                pattern_ok(pattern@, num_of_cycles),
                total == len * num_of_cycles,
                cycle < num_of_cycles,
                start == cycle * len,
                start + len <= total <= u32::MAX,
                j <= len,
                out.len() == start + j,
                forall|i: int|
                    0 <= i < out.len() ==> is_pattern_tx(#[trigger] out[i], account_id, pattern@, i),
            decreases len - j,
        {
            let index = start + j;
            let request = pattern[j];
            assert(match request {
                TransactionRequestCompressed::Dispute(p) => p + start <= u32::MAX,
                TransactionRequestCompressed::Resolve(p) => p + start <= u32::MAX,
                TransactionRequestCompressed::ChargeBack(p) => p + start <= u32::MAX,
                _ => true,
            });
            let tx = match request {
                TransactionRequestCompressed::Deposit(amount) => Transaction::deposit(
                    account_id,
                    TransactionId(index as u32),
                    Amount::from_u64(amount),
                ).unwrap(),
                TransactionRequestCompressed::Withdraw(amount) => Transaction::withdraw(
                    account_id,
                    TransactionId(index as u32),
                    Amount::from_u64(amount),
                ).unwrap(),
                TransactionRequestCompressed::Dispute(p) => Transaction::dispute(
                    account_id,
                    TransactionId(p + start as u32),
                ),
                TransactionRequestCompressed::Resolve(p) => Transaction::resolve(
                    account_id,
                    TransactionId(p + start as u32),
                ),
                TransactionRequestCompressed::ChargeBack(p) => Transaction::charge_back(
                    account_id,
                    TransactionId(p + start as u32),
                ),
            };
            proof {
                lemma_fundamental_div_mod_converse(index as int, len as int, cycle as int, j as int);
            }
            out.push(tx);
            j = j + 1;
        }
        assert((cycle + 1) * len == cycle * len + len) by (nonlinear_arith);
        start = start + len;
        cycle = cycle + 1;
    }
    assert(num_of_cycles * len == len * num_of_cycles) by (nonlinear_arith);
    out
}

/// The transaction at position `pos` when the streams are read round-robin:
/// one from each stream in turn.
pub open spec fn round_robin_item(streams: Seq<Seq<Transaction>>, pos: int) -> Transaction {
    streams[pos % (streams.len() as int)][pos / (streams.len() as int)]
}

/// Interleaves the transactions of several accounts round-robin: the first
/// transaction of every account, then the second of every account, and so on.
pub struct TransposeFlatten {
    accounts: Vec<Vec<Transaction>>,
    index: usize,
    round: usize,
    len: u16,
}

impl TransposeFlatten {
    /// Each account's transactions, by account index.
    pub closed spec fn streams(&self) -> Seq<Seq<Transaction>> {
        self.accounts@.map_values(|v: Vec<Transaction>| v@)
    }

    /// How many transactions each account has.
    pub closed spec fn stream_len(&self) -> nat {
        if self.accounts@.len() == 0 {
            0
        } else {
            self.accounts@[0]@.len()
        }
    }

    /// How many transactions have been handed out.
    pub closed spec fn position(&self) -> nat {
        self.round as nat * self.len as nat + self.index as nat
    }

    /// The interleaver's invariant: every account has as many transactions,
    /// and the position lies within them all.
    pub closed spec fn wf(&self) -> bool {
        &&& self.accounts@.len() == self.len
        &&& forall|a: int|
            0 <= a < self.accounts@.len() ==> #[trigger] self.accounts@[a]@.len()
                == self.stream_len()
        &&& self.len > 0 ==> self.index < self.len && self.round <= self.stream_len()
        &&& self.len > 0 && self.round == self.stream_len() ==> self.index == 0
        &&& self.len == 0 ==> self.index == 0 && self.round == 0
    }

    /// The interleaving of `num_of_acc` accounts, numbered from zero, that
    /// each run `pattern` for `num_of_cycles` cycles.
    pub fn new(
        num_of_acc: u16,
        pattern: Vec<TransactionRequestCompressed>,
        num_of_cycles: u32,
    ) -> (r: TransposeFlatten)
        requires
            pattern_ok(pattern@, num_of_cycles),
        ensures
            r.wf(),
            r.position() == 0,
            r.streams().len() == num_of_acc,
            r.stream_len() == if num_of_acc == 0 {
                0
            } else {
                pattern.len() * num_of_cycles
            },
            forall|a: int, i: int|
                0 <= a < num_of_acc && 0 <= i < r.stream_len() ==> is_pattern_tx(
                    #[trigger] r.streams()[a][i],
                    AccountId(a as u16),
                    pattern@,
                    i,
                ),
    {
        let mut accounts: Vec<Vec<Transaction>> = Vec::new();
        let mut account_id: u16 = 0;
        while account_id < num_of_acc
            invariant
                pattern_ok(pattern@, num_of_cycles),
                account_id <= num_of_acc,
                accounts.len() == account_id,
                forall|a: int|
                    0 <= a < accounts.len() ==> #[trigger] accounts@[a]@.len() == pattern.len()
                        * num_of_cycles,
                forall|a: int, i: int|
                    0 <= a < accounts.len() && 0 <= i < accounts@[a]@.len() ==> is_pattern_tx(
                        #[trigger] accounts@[a]@[i],
                        AccountId(a as u16),
                        pattern@,
                        i,
                    ),
            decreases num_of_acc - account_id,
        {
            let copy = pattern.clone();
            assert(copy@ =~= pattern@);
            accounts.push(pattern_iter(AccountId(account_id), copy, num_of_cycles));
            account_id = account_id + 1;
        }
        TransposeFlatten { accounts, index: 0, round: 0, len: num_of_acc }
    }

    /// The next transaction in round-robin order, or `None` once every
    /// account's transactions have all been handed out.
    pub fn next(&mut self) -> (r: Option<Transaction>)
        requires
            old(self).wf(),
        ensures
            final(self).wf(),
            final(self).streams() == old(self).streams(),
            final(self).stream_len() == old(self).stream_len(),
            old(self).position() < old(self).streams().len() * old(self).stream_len() ==> r
                == Some(round_robin_item(old(self).streams(), old(self).position() as int))
                && final(self).position() == old(self).position() + 1,
            old(self).position() >= old(self).streams().len() * old(self).stream_len() ==> r
                is None && final(self).position() == old(self).position(),
    {
        let ghost pos = self.position() as int;
        let ghost n = self.len as int;
        if self.len == 0 || self.round >= self.accounts[0].len() {
            proof {
                if n > 0 {
                    assert(self.round == self.stream_len());
                    assert(pos == self.stream_len() * n) by (nonlinear_arith)
                        requires
                            pos == self.round * n + self.index,
                            self.index == 0,
                            self.round == self.stream_len(),
                    ;
                }
            }
            return None;
        }
        assert(self.accounts@[self.index as int]@.len() == self.stream_len());
        let next = self.accounts[self.index][self.round];
        proof {
            lemma_fundamental_div_mod_converse(pos, n, self.round as int, self.index as int);
            assert(self.streams()[self.index as int] == self.accounts@[self.index as int]@);
            assert(pos < n * self.stream_len()) by (nonlinear_arith)
                requires
                    pos == self.round * n + self.index,
                    self.index < n,
                    self.round < self.stream_len(),
            ;
        }
        if self.index + 1 == self.len as usize {
            self.index = 0;
            self.round = self.round + 1;
            proof {
                assert(self.position() == pos + 1) by (nonlinear_arith)
                    requires
                        self.position() == self.round * n,
                        pos == (self.round - 1) * n + n - 1,
                ;
            }
        } else {
            self.index = self.index + 1;
        }
        Some(next)
    }

    /// Every remaining transaction, in round-robin order.
    pub fn into_vec(self) -> (r: Vec<Transaction>)
        requires
            self.wf(),
            self.position() == 0,
        ensures
            r.len() == self.streams().len() * self.stream_len(),
            forall|i: int| 0 <= i < r.len() ==> #[trigger] r[i] == round_robin_item(self.streams(), i),
    {
        let ghost streams = self.streams();
        let ghost total = self.streams().len() * self.stream_len();
        let mut flat = self;
        let mut out: Vec<Transaction> = Vec::new();
        loop
            invariant
                flat.wf(),
                flat.streams() == streams,
                flat.streams().len() * flat.stream_len() == total,
                flat.position() == out.len(),
                out.len() <= total,
                forall|i: int| 0 <= i < out.len() ==> #[trigger] out[i] == round_robin_item(streams, i),
            ensures
                out.len() == total,
                forall|i: int| 0 <= i < out.len() ==> #[trigger] out[i] == round_robin_item(streams, i),
            decreases total - out.len(),
        {
            match flat.next() {
                Some(tx) => out.push(tx),
                None => break,
            }
        }
        out
    }
}

/// Deposits of 1 into account 0, 180 times.
pub fn generate_deposits() -> (r: Vec<Transaction>)
    ensures
        r.len() == 180,
        forall|i: int|
            0 <= i < r.len() ==> is_pattern_tx(
                #[trigger] r[i],
                AccountId(0),
                seq![TransactionRequestCompressed::Deposit(1)],
                i,
            ),
{
    let pattern = vec![TransactionRequestCompressed::Deposit(1)];
    assert(pattern@ =~= seq![TransactionRequestCompressed::Deposit(1)]);
    pattern_iter(AccountId(0), pattern, 180)
}

/// `num_of_acc` accounts, numbered from zero, that each run `pattern` for
/// `num_of_cycles` cycles, interleaved round-robin.
fn round_robin_patterns(
    num_of_acc: u16,
    pattern: Vec<TransactionRequestCompressed>,
    num_of_cycles: u32,
) -> (r: Vec<Transaction>)
    requires
        num_of_acc > 0,
        pattern_ok(pattern@, num_of_cycles),
    ensures
        r.len() == num_of_acc * (pattern.len() * num_of_cycles),
        forall|i: int|
            0 <= i < r.len() ==> is_pattern_tx(
                #[trigger] r[i],
                AccountId((i % num_of_acc as int) as u16),
                pattern@,
                i / num_of_acc as int,
            ),
{
    let ghost p = pattern@;
    let flat = TransposeFlatten::new(num_of_acc, pattern, num_of_cycles);
    let ghost streams = flat.streams();
    let ghost len = flat.stream_len();
    let r = flat.into_vec();
    assert forall|i: int| 0 <= i < r.len() implies is_pattern_tx(
        #[trigger] r[i],
        AccountId((i % num_of_acc as int) as u16),
        p,
        i / num_of_acc as int,
    ) by {
        let n = num_of_acc as int;
        assert(0 <= i / n < len) by (nonlinear_arith)
            requires
                0 <= i < n * len,
                n > 0,
        ;
        assert(0 <= i % n < n) by (nonlinear_arith)
            requires
                n > 0,
        ;
        assert(r[i] == streams[i % n][i / n]);
    }
    r
}

/// Deposits of 2 then withdrawals of 1 from account 0, 90 times.
pub fn generate_deposit_withdraw() -> (r: Vec<Transaction>)
    ensures
        r.len() == 180,
        forall|i: int|
            0 <= i < r.len() ==> is_pattern_tx(
                #[trigger] r[i],
                AccountId(0),
                seq![
                    TransactionRequestCompressed::Deposit(2),
                    TransactionRequestCompressed::Withdraw(1),
                ],
                i,
            ),
{
    let pattern = vec![
        TransactionRequestCompressed::Deposit(2),
        TransactionRequestCompressed::Withdraw(1),
    ];
    assert(pattern@ =~= seq![
        TransactionRequestCompressed::Deposit(2),
        TransactionRequestCompressed::Withdraw(1),
    ]);
    pattern_iter(AccountId(0), pattern, 90)
}

/// A deposit of 2 into account 0, its dispute and its resolve, 60 times.
pub fn generate_deposit_dispute_resolve() -> (r: Vec<Transaction>)
    ensures
        r.len() == 180,
        forall|i: int|
            0 <= i < r.len() ==> is_pattern_tx(
                #[trigger] r[i],
                AccountId(0),
                seq![
                    TransactionRequestCompressed::Deposit(2),
                    TransactionRequestCompressed::Dispute(0),
                    TransactionRequestCompressed::Resolve(0),
                ],
                i,
            ),
{
    let pattern = vec![
        TransactionRequestCompressed::Deposit(2),
        TransactionRequestCompressed::Dispute(0),
        TransactionRequestCompressed::Resolve(0),
    ];
    assert(pattern@ =~= seq![
        TransactionRequestCompressed::Deposit(2),
        TransactionRequestCompressed::Dispute(0),
        TransactionRequestCompressed::Resolve(0),
    ]);
    pattern_iter(AccountId(0), pattern, 60)
}

/// Deposits of 1 into each of the accounts 0 to 99, 180 rounds,
/// round-robin.
pub fn generate_deposits_many_acc() -> (r: Vec<Transaction>)
    ensures
        r.len() == 18000,
        forall|i: int|
            0 <= i < r.len() ==> is_pattern_tx(
                #[trigger] r[i],
                AccountId((i % 100) as u16),
                seq![TransactionRequestCompressed::Deposit(1)],
                i / 100,
            ),
{
    let pattern = vec![TransactionRequestCompressed::Deposit(1)];
    assert(pattern@ =~= seq![TransactionRequestCompressed::Deposit(1)]);
    round_robin_patterns(100, pattern, 180)
}

/// Deposits of 2 then withdrawals of 1 for each of the accounts 0 to 99,
/// 90 cycles, round-robin.
pub fn generate_deposits_withdraw_many_acc() -> (r: Vec<Transaction>)
    ensures
        r.len() == 18000,
        forall|i: int|
            0 <= i < r.len() ==> is_pattern_tx(
                #[trigger] r[i],
                AccountId((i % 100) as u16),
                seq![
                    TransactionRequestCompressed::Deposit(2),
                    TransactionRequestCompressed::Withdraw(1),
                ],
                i / 100,
            ),
{
    let pattern = vec![
        TransactionRequestCompressed::Deposit(2),
        TransactionRequestCompressed::Withdraw(1),
    ];
    assert(pattern@ =~= seq![
        TransactionRequestCompressed::Deposit(2),
        TransactionRequestCompressed::Withdraw(1),
    ]);
    round_robin_patterns(100, pattern, 90)
}

/// A deposit of 2, its dispute and its resolve for each of the accounts 0
/// to 99, 60 cycles, round-robin.
pub fn generate_deposits_dispute_resolve_many_acc() -> (r: Vec<Transaction>)
    ensures
        r.len() == 18000,
        forall|i: int|
            0 <= i < r.len() ==> is_pattern_tx(
                #[trigger] r[i],
                AccountId((i % 100) as u16),
                seq![
                    TransactionRequestCompressed::Deposit(2),
                    TransactionRequestCompressed::Dispute(0),
                    TransactionRequestCompressed::Resolve(0),
                ],
                i / 100,
            ),
{
    let pattern = vec![
        TransactionRequestCompressed::Deposit(2),
        TransactionRequestCompressed::Dispute(0),
        TransactionRequestCompressed::Resolve(0),
    ];
    assert(pattern@ =~= seq![
        TransactionRequestCompressed::Deposit(2),
        TransactionRequestCompressed::Dispute(0),
        TransactionRequestCompressed::Resolve(0),
    ]);
    round_robin_patterns(100, pattern, 60)
}

} // verus!
