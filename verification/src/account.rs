//! The per-client account state machine: deposits, withdrawals and the
//! dispute lifecycle (dispute, resolve, chargeback).
//!
//! The whole behaviour of [`Account::process`] is captured by the
//! specification-level transition function [`step`]: processing a
//! transaction leaves the account in exactly the state `step` describes
//! and returns exactly the result `step` describes.

use std::collections::HashMap;
use vstd::prelude::*;
use vstd::string::StringExecFns;

verus! {

broadcast use vstd::std_specs::hash::group_hash_axioms;

/// Transaction identifier, unique per client.
pub type Tx = u32;

/// Client identifier.
pub type ClientId = u16;

/// A monetary amount, in the smallest currency unit (a non-negative
/// fixed-point quantity).
pub type Amount = u64;

/// A request against a client's account.
///
/// `Deposit` and `Withdrawal` settle funds and are recorded; `Dispute`,
/// `Resolve` and `Chargeback` act on a previously recorded settlement
/// and carry an amount only for symmetry with the input format (it is
/// ignored).
#[derive(Clone, Copy, Debug, PartialEq, Eq, Structural)]
pub enum Transaction {
    /// A credit to the client's account: fields are client id,
    /// transaction id, amount.
    Deposit(ClientId, Tx, Amount),
    /// A debit to the client's account: fields are client id,
    /// transaction id, amount.
    Withdrawal(ClientId, Tx, Amount),
    /// A claim that a recorded settlement was erroneous; its funds are
    /// put on hold. The amount field is ignored.
    Dispute(ClientId, Tx, Amount),
    /// Cancels a dispute, releasing the held funds. The amount field is
    /// ignored.
    Resolve(ClientId, Tx, Amount),
    /// Finalizes a dispute in the claimant's favour: the held funds are
    /// reversed and the account is frozen. The amount field is ignored.
    Chargeback(ClientId, Tx, Amount),
}

/// Why a transaction was rejected. Every failure is local and
/// recoverable: the account is left unchanged and later transactions
/// may still succeed.
#[derive(Clone, Copy, Debug, PartialEq, Eq, Structural)]
pub enum TransactionError {
    /// The account has processed a chargeback; nothing further succeeds.
    AccountFrozen,
    /// The transaction's client id differs from the account's.
    ClientMismatch,
    /// A withdrawal or a deposit dispute asked for more than is available.
    InsufficientFunds,
    /// A resolve or chargeback asked for more than is held.
    InsufficientHeldFunds,
    /// A chargeback asked for more than the account's total.
    InsufficientTotalFunds,
    /// The referenced transaction id was not found where the request
    /// needs it (settled records for a dispute, disputed records for a
    /// resolve or chargeback).
    UnknownTransaction,
}

impl Transaction {
    /// The client id embedded in the transaction.
    pub open spec fn spec_client(self) -> ClientId {
        match self {
            Transaction::Deposit(c, _, _) => c,
            Transaction::Withdrawal(c, _, _) => c,
            Transaction::Dispute(c, _, _) => c,
            Transaction::Resolve(c, _, _) => c,
            Transaction::Chargeback(c, _, _) => c,
        }
    }

    /// The transaction id embedded in the transaction.
    pub open spec fn spec_tx(self) -> Tx {
        match self {
            Transaction::Deposit(_, t, _) => t,
            Transaction::Withdrawal(_, t, _) => t,
            Transaction::Dispute(_, t, _) => t,
            Transaction::Resolve(_, t, _) => t,
            Transaction::Chargeback(_, t, _) => t,
        }
    }

    /// The amount embedded in the transaction.
    pub open spec fn spec_amount(self) -> Amount {
        match self {
            Transaction::Deposit(_, _, a) => a,
            Transaction::Withdrawal(_, _, a) => a,
            Transaction::Dispute(_, _, a) => a,
            Transaction::Resolve(_, _, a) => a,
            Transaction::Chargeback(_, _, a) => a,
        }
    }

    /// Whether the transaction settles funds (only these are recorded
    /// and may be disputed).
    pub open spec fn is_settlement(self) -> bool {
        self is Deposit || self is Withdrawal
    }

    /// The client id this transaction should be routed by.
    pub fn client(&self) -> (c: ClientId)
        ensures
            c == self.spec_client(),
    {
        match *self {
            Transaction::Deposit(c, _, _) => c,
            Transaction::Withdrawal(c, _, _) => c,
            Transaction::Dispute(c, _, _) => c,
            Transaction::Resolve(c, _, _) => c,
            Transaction::Chargeback(c, _, _) => c,
        }
    }

    /// The transaction id.
    pub fn tx_id(&self) -> (t: Tx)
        ensures
            t == self.spec_tx(),
    {
        match *self {
            Transaction::Deposit(_, t, _) => t,
            Transaction::Withdrawal(_, t, _) => t,
            Transaction::Dispute(_, t, _) => t,
            Transaction::Resolve(_, t, _) => t,
            Transaction::Chargeback(_, t, _) => t,
        }
    }

    /// The amount.
    pub fn amount(&self) -> (a: Amount)
        ensures
            a == self.spec_amount(),
    {
        match *self {
            Transaction::Deposit(_, _, a) => a,
            Transaction::Withdrawal(_, _, a) => a,
            Transaction::Dispute(_, _, a) => a,
            Transaction::Resolve(_, _, a) => a,
            Transaction::Chargeback(_, _, a) => a,
        }
    }
}

/// The character standing for one decimal digit.
pub open spec fn digit_char(d: nat) -> char {
    if d == 0 {
        '0'
    } else if d == 1 {
        '1'
    } else if d == 2 {
        '2'
    } else if d == 3 {
        '3'
    } else if d == 4 {
        '4'
    } else if d == 5 {
        '5'
    } else if d == 6 {
        '6'
    } else if d == 7 {
        '7'
    } else if d == 8 {
        '8'
    } else {
        '9'
    }
}

/// The decimal rendering of a number, most significant digit first.
pub open spec fn spec_decimal(n: nat) -> Seq<char>
    decreases n,
{
    if n < 10 {
        seq![digit_char(n)]
    } else {
        spec_decimal(n / 10).push(digit_char(n % 10))
    }
}

/// The rendering of a truth value.
pub open spec fn spec_bool_text(b: bool) -> Seq<char> {
    if b {
        seq!['t', 'r', 'u', 'e']
    } else {
        seq!['f', 'a', 'l', 's', 'e']
    }
}

/// The account summary line: available, held and total balances and
/// the frozen flag, comma separated.
pub open spec fn summary_seq(v: AccountV) -> Seq<char> {
    spec_decimal(v.available as nat) + seq![','] + spec_decimal(v.held as nat) + seq![',']
        + spec_decimal(v.total as nat) + seq![','] + spec_bool_text(v.frozen)
}

/// The mathematical state of an account: balances as unbounded
/// integers, the two record maps as maps. This is the value that all
/// contracts speak about; [`Account`] is its machine representation.
#[verifier::ext_equal]
pub struct AccountV {
    /// The owning client's id.
    pub client_id: ClientId,
    /// Funds the client may withdraw or have disputed.
    pub available: int,
    /// Funds frozen pending dispute resolution.
    pub held: int,
    /// Sum of available and held.
    pub total: int,
    /// One-way latch, set by a chargeback.
    pub frozen: bool,
    /// Settled transactions still eligible for dispute.
    pub records: Map<Tx, Transaction>,
    /// Transactions currently under dispute.
    pub disputed: Map<Tx, Transaction>,
}

impl AccountV {
    /// The state of a freshly opened account for `client_id`.
    pub open spec fn fresh(client_id: ClientId) -> AccountV {
        AccountV {
            client_id: client_id,
            available: 0,
            held: 0,
            total: 0,
            frozen: false,
            records: Map::empty(),
            disputed: Map::empty(),
        }
    }

    /// Well-formedness, preserved by every operation: conservation of
    /// funds, non-negative balances, and the record maps disjoint and
    /// holding only this client's settlements under their own id.
    pub open spec fn wf(self) -> bool {
        &&& self.total == self.available + self.held
        &&& 0 <= self.available
        &&& 0 <= self.held
        &&& forall|k: Tx| #[trigger] self.records.contains_key(k) ==> !self.disputed.contains_key(k)
        &&& forall|k: Tx| #[trigger] self.records.contains_key(k)
            ==> self.records[k].is_settlement() && self.records[k].spec_client() == self.client_id
                && self.records[k].spec_tx() == k
        &&& forall|k: Tx| #[trigger] self.disputed.contains_key(k)
            ==> self.disputed[k].is_settlement() && self.disputed[k].spec_client() == self.client_id
                && self.disputed[k].spec_tx() == k
    }

    /// Whether the balances fit the machine word that stores them.
    pub open spec fn fits(self) -> bool {
        &&& self.available <= u64::MAX
        &&& self.held <= u64::MAX
        &&& self.total <= u64::MAX
    }

    /// The data model's input assumption, as far as this state needs
    /// it: transaction ids are unique per client, so a settling
    /// transaction that would actually be applied here never reuses an
    /// id that is currently under dispute.
    pub open spec fn settlement_id_undisputed(self, t: Transaction) -> bool {
        t.is_settlement() && !self.frozen && t.spec_client() == self.client_id
            ==> !self.disputed.contains_key(t.spec_tx())
    }
}

/// Effect of a deposit whose eligibility checks passed: credit
/// available and total, record the settlement.
pub open spec fn step_deposit(pre: AccountV, t: Transaction) -> (AccountV, Result<
    (),
    TransactionError,
>)
    recommends
        t is Deposit,
{
    (
        AccountV {
            available: pre.available + t.spec_amount(),
            total: pre.total + t.spec_amount(),
            records: pre.records.insert(t.spec_tx(), t),
            ..pre
        },
        Ok(()),
    )
}

/// Effect of a withdrawal whose eligibility checks passed: debit
/// available and total if covered, record the settlement.
pub open spec fn step_withdrawal(pre: AccountV, t: Transaction) -> (AccountV, Result<
    (),
    TransactionError,
>)
    recommends
        t is Withdrawal,
{
    if pre.available < t.spec_amount() || pre.total < t.spec_amount() {
        (pre, Err(TransactionError::InsufficientFunds))
    } else {
        (
            AccountV {
                available: pre.available - t.spec_amount(),
                total: pre.total - t.spec_amount(),
                records: pre.records.insert(t.spec_tx(), t),
                ..pre
            },
            Ok(()),
        )
    }
}

/// Effect of a dispute whose eligibility checks passed: move the
/// referenced settlement from `records` to `disputed` and put its
/// amount on hold. A disputed deposit moves funds from available to
/// held; a disputed withdrawal re-materializes the withdrawn funds as
/// held.
pub open spec fn step_dispute(pre: AccountV, tx: Tx) -> (AccountV, Result<(), TransactionError>) {
    if !pre.records.contains_key(tx) {
        (pre, Err(TransactionError::UnknownTransaction))
    } else {
        let rec = pre.records[tx];
        match rec {
            Transaction::Deposit(_, _, amount) => {
                if pre.available < amount {
                    (pre, Err(TransactionError::InsufficientFunds))
                } else {
                    (
                        AccountV {
                            available: pre.available - amount,
                            held: pre.held + amount,
                            records: pre.records.remove(tx),
                            disputed: pre.disputed.insert(tx, rec),
                            ..pre
                        },
                        Ok(()),
                    )
                }
            },
            Transaction::Withdrawal(_, _, amount) => (
                AccountV {
                    held: pre.held + amount,
                    total: pre.total + amount,
                    records: pre.records.remove(tx),
                    disputed: pre.disputed.insert(tx, rec),
                    ..pre
                },
                Ok(()),
            ),
            _ => (pre, Err(TransactionError::UnknownTransaction)),
        }
    }
}

/// Effect of a resolve whose eligibility checks passed: cancel the
/// dispute, release the held funds (back to available for a deposit,
/// out of the account for a withdrawal) and return the settlement to
/// `records`.
pub open spec fn step_resolve(pre: AccountV, tx: Tx) -> (AccountV, Result<(), TransactionError>) {
    if !pre.disputed.contains_key(tx) {
        (pre, Err(TransactionError::UnknownTransaction))
    } else {
        let rec = pre.disputed[tx];
        match rec {
            Transaction::Deposit(_, _, amount) => {
                if pre.held < amount {
                    (pre, Err(TransactionError::InsufficientHeldFunds))
                } else {
                    (
                        AccountV {
                            held: pre.held - amount,
                            available: pre.available + amount,
                            disputed: pre.disputed.remove(tx),
                            records: pre.records.insert(tx, rec),
                            ..pre
                        },
                        Ok(()),
                    )
                }
            },
            Transaction::Withdrawal(_, _, amount) => {
                if pre.held < amount {
                    (pre, Err(TransactionError::InsufficientHeldFunds))
                } else {
                    (
                        AccountV {
                            held: pre.held - amount,
                            total: pre.total - amount,
                            disputed: pre.disputed.remove(tx),
                            records: pre.records.insert(tx, rec),
                            ..pre
                        },
                        Ok(()),
                    )
                }
            },
            _ => (pre, Err(TransactionError::UnknownTransaction)),
        }
    }
}

/// Effect of a chargeback whose eligibility checks passed: reverse the
/// held funds, retire the settlement permanently and freeze the
/// account.
pub open spec fn step_chargeback(pre: AccountV, tx: Tx) -> (AccountV, Result<
    (),
    TransactionError,
>) {
    if !pre.disputed.contains_key(tx) {
        (pre, Err(TransactionError::UnknownTransaction))
    } else {
        let rec = pre.disputed[tx];
        match rec {
            Transaction::Deposit(_, _, amount) | Transaction::Withdrawal(_, _, amount) => {
                if pre.held < amount {
                    (pre, Err(TransactionError::InsufficientHeldFunds))
                } else if pre.total < amount {
                    (pre, Err(TransactionError::InsufficientTotalFunds))
                } else {
                    (
                        AccountV {
                            held: pre.held - amount,
                            total: pre.total - amount,
                            frozen: true,
                            disputed: pre.disputed.remove(tx),
                            ..pre
                        },
                        Ok(()),
                    )
                }
            },
            _ => (pre, Err(TransactionError::UnknownTransaction)),
        }
    }
}

/// The account transition function: what one `process` call does.
///
/// A frozen account rejects everything; a misrouted transaction is
/// rejected; otherwise the transaction's own rule applies. Every
/// rejection leaves the state exactly as it was.
pub open spec fn step(pre: AccountV, t: Transaction) -> (AccountV, Result<(), TransactionError>) {
    if pre.frozen {
        (pre, Err(TransactionError::AccountFrozen))
    } else if t.spec_client() != pre.client_id {
        (pre, Err(TransactionError::ClientMismatch))
    } else {
        match t {
            Transaction::Deposit(_, _, _) => step_deposit(pre, t),
            Transaction::Withdrawal(_, _, _) => step_withdrawal(pre, t),
            Transaction::Dispute(_, tx, _) => step_dispute(pre, tx),
            Transaction::Resolve(_, tx, _) => step_resolve(pre, tx),
            Transaction::Chargeback(_, tx, _) => step_chargeback(pre, tx),
        }
    }
}

/// One client's account: balances, the settled records still eligible
/// for dispute, and the records currently under dispute.
#[derive(Debug)]
pub struct Account {
    client_id: ClientId,
    available: Amount,
    held: Amount,
    total: Amount,
    frozen: bool,
    records: HashMap<Tx, Transaction>,
    disputed: HashMap<Tx, Transaction>,
}

impl View for Account {
    type V = AccountV;

    closed spec fn view(&self) -> AccountV {
        AccountV {
            client_id: self.client_id,
            available: self.available as int,
            held: self.held as int,
            total: self.total as int,
            frozen: self.frozen,
            records: self.records@,
            disputed: self.disputed@,
        }
    }
}

impl Account {
    /// Create an empty, unfrozen account owned by `client_id`.
    pub fn new(client_id: ClientId) -> (a: Account)
        ensures
            a@ == AccountV::fresh(client_id),
            a@.wf(),
    {
        let a = Account {
            client_id: client_id,
            available: 0,
            held: 0,
            total: 0,
            frozen: false,
            records: HashMap::new(),
            disputed: HashMap::new(),
        };
        proof {
            assert(a@ =~= AccountV::fresh(client_id));
        }
        a
    }

    /// Evaluate and execute one transaction.
    ///
    /// The state afterwards and the returned result are exactly those
    /// of [`step`] on the state before. The caller must ensure the
    /// resulting balances fit the machine word (see
    /// [`Account::can_apply`]); every input the rules reject is
    /// answered with the matching error and leaves the account
    /// unchanged.
    pub fn process(&mut self, t: Transaction) -> (r: Result<(), TransactionError>)
        requires
            old(self)@.wf(),
            old(self)@.settlement_id_undisputed(t),
            step(old(self)@, t).0.fits(),
        ensures
            final(self)@ == step(old(self)@, t).0,
            r == step(old(self)@, t).1,
            final(self)@.wf(),
    {
        proof {
            lemma_step_preserves_wf(old(self)@, t);
        }
        let client_id = t.client();
        match self.verify_transaction_valid(client_id) {
            Err(e) => Err(e),
            Ok(()) => match t {
                Transaction::Deposit(_, tx_id, amount) => {
                    let r = self.deposit(amount);
                    self.records.insert(tx_id, t);
                    proof {
                        assert(self@ =~= step(old(self)@, t).0);
                    }
                    r
                },
                Transaction::Withdrawal(_, tx_id, amount) => {
                    let r = self.withdrawal(amount);
                    match r {
                        Ok(()) => {
                            self.records.insert(tx_id, t);
                            proof {
                                assert(self@ =~= step(old(self)@, t).0);
                            }
                            Ok(())
                        },
                        Err(e) => Err(e),
                    }
                },
                Transaction::Dispute(_, tx_id, _) => self.dispute(tx_id),
                Transaction::Resolve(_, tx_id, _) => self.resolve(tx_id),
                Transaction::Chargeback(_, tx_id, _) => self.chargeback(tx_id),
            },
        }
    }

    /// Eligibility check made before any dispatch: the account must not
    /// be frozen and the transaction must carry this account's client
    /// id.
    fn verify_transaction_valid(&self, client_id: ClientId) -> (r: Result<(), TransactionError>)
        ensures
            r == if self@.frozen {
                Err::<(), TransactionError>(TransactionError::AccountFrozen)
            } else if client_id != self@.client_id {
                Err::<(), TransactionError>(TransactionError::ClientMismatch)
            } else {
                Ok::<(), TransactionError>(())
            },
    {
        if self.frozen {
            return Err(TransactionError::AccountFrozen);
        }
        if client_id != self.client_id {
            return Err(TransactionError::ClientMismatch);
        }
        Ok(())
    }

    /// Credit `amount` to available and total. Cannot fail once
    /// eligibility passed.
    fn deposit(&mut self, amount: Amount) -> (r: Result<(), TransactionError>)
        requires
            old(self)@.wf(),
            old(self)@.total + amount <= u64::MAX,
        ensures
            r == Ok::<(), TransactionError>(()),
            final(self)@ == (AccountV {
                available: old(self)@.available + amount,
                total: old(self)@.total + amount,
                ..old(self)@
            }),
    {
        self.available = self.available + amount;
        self.total = self.total + amount;
        Ok(())
    }

    /// Debit `amount` from available and total, or reject it when not
    /// covered.
    fn withdrawal(&mut self, amount: Amount) -> (r: Result<(), TransactionError>)
        requires
            old(self)@.wf(),
        ensures
            old(self)@.available < amount || old(self)@.total < amount ==> r == Err::<
                (),
                TransactionError,
            >(TransactionError::InsufficientFunds) && final(self)@ == old(self)@,
            old(self)@.available >= amount && old(self)@.total >= amount ==> r == Ok::<
                (),
                TransactionError,
            >(()) && final(self)@ == (AccountV {
                available: old(self)@.available - amount,
                total: old(self)@.total - amount,
                ..old(self)@
            }),
    {
        if self.available < amount {
            return Err(TransactionError::InsufficientFunds);
        }
        if self.total < amount {
            return Err(TransactionError::InsufficientFunds);
        }
        self.available = self.available - amount;
        self.total = self.total - amount;
        Ok(())
    }

    /// Open a dispute against the settled record `tx`.
    fn dispute(&mut self, tx: Tx) -> (r: Result<(), TransactionError>)
        requires
            old(self)@.wf(),
            step_dispute(old(self)@, tx).0.fits(),
        ensures
            final(self)@ == step_dispute(old(self)@, tx).0,
            r == step_dispute(old(self)@, tx).1,
    {
        let rec_opt: Option<Transaction> = match self.records.get(&tx) {
            None => None,
            Some(r) => Some(*r),
        };
        match rec_opt {
            None => Err(TransactionError::UnknownTransaction),
            Some(rec) => match rec {
                Transaction::Deposit(_, _, amount) => {
                    if self.available < amount {
                        return Err(TransactionError::InsufficientFunds);
                    }
                    self.available = self.available - amount;
                    self.held = self.held + amount;
                    self.disputed.insert(tx, rec);
                    self.records.remove(&tx);
                    proof {
                        assert(self@ =~= step_dispute(old(self)@, tx).0);
                    }
                    Ok(())
                },
                Transaction::Withdrawal(_, _, amount) => {
                    self.held = self.held + amount;
                    self.total = self.total + amount;
                    self.disputed.insert(tx, rec);
                    self.records.remove(&tx);
                    proof {
                        assert(self@ =~= step_dispute(old(self)@, tx).0);
                    }
                    Ok(())
                },
                _ => Err(TransactionError::UnknownTransaction),
            },
        }
    }

    /// Cancel the dispute on `tx`, releasing its held funds.
    fn resolve(&mut self, tx: Tx) -> (r: Result<(), TransactionError>)
        requires
            old(self)@.wf(),
            step_resolve(old(self)@, tx).0.fits(),
        ensures
            final(self)@ == step_resolve(old(self)@, tx).0,
            r == step_resolve(old(self)@, tx).1,
    {
        let rec_opt: Option<Transaction> = match self.disputed.get(&tx) {
            None => None,
            Some(r) => Some(*r),
        };
        match rec_opt {
            None => Err(TransactionError::UnknownTransaction),
            Some(rec) => match rec {
                Transaction::Deposit(_, _, amount) => {
                    if self.held < amount {
                        return Err(TransactionError::InsufficientHeldFunds);
                    }
                    self.held = self.held - amount;
                    self.available = self.available + amount;
                    self.disputed.remove(&tx);
                    self.records.insert(tx, rec);
                    proof {
                        assert(self@ =~= step_resolve(old(self)@, tx).0);
                    }
                    Ok(())
                },
                Transaction::Withdrawal(_, _, amount) => {
                    if self.held < amount {
                        return Err(TransactionError::InsufficientHeldFunds);
                    }
                    self.held = self.held - amount;
                    self.total = self.total - amount;
                    self.disputed.remove(&tx);
                    self.records.insert(tx, rec);
                    proof {
                        assert(self@ =~= step_resolve(old(self)@, tx).0);
                    }
                    Ok(())
                },
                _ => Err(TransactionError::UnknownTransaction),
            },
        }
    }

    /// Finalize the dispute on `tx`: reverse the held funds and freeze
    /// the account.
    fn chargeback(&mut self, tx: Tx) -> (r: Result<(), TransactionError>)
        requires
            old(self)@.wf(),
            step_chargeback(old(self)@, tx).0.fits(),
        ensures
            final(self)@ == step_chargeback(old(self)@, tx).0,
            r == step_chargeback(old(self)@, tx).1,
    {
        let rec_opt: Option<Transaction> = match self.disputed.get(&tx) {
            None => None,
            Some(r) => Some(*r),
        };
        match rec_opt {
            None => Err(TransactionError::UnknownTransaction),
            Some(rec) => match rec {
                Transaction::Deposit(_, _, amount) | Transaction::Withdrawal(_, _, amount) => {
                    if self.held < amount {
                        return Err(TransactionError::InsufficientHeldFunds);
                    }
                    if self.total < amount {
                        return Err(TransactionError::InsufficientTotalFunds);
                    }
                    self.held = self.held - amount;
                    self.total = self.total - amount;
                    self.frozen = true;
                    self.disputed.remove(&tx);
                    proof {
                        assert(self@ =~= step_chargeback(old(self)@, tx).0);
                    }
                    Ok(())
                },
                _ => Err(TransactionError::UnknownTransaction),
            },
        }
    }

    /// Funds the client may withdraw or have disputed.
    pub fn available(&self) -> (r: Amount)
        ensures
            r == self@.available,
    {
        self.available
    }

    /// Funds frozen pending dispute resolution.
    pub fn held(&self) -> (r: Amount)
        ensures
            r == self@.held,
    {
        self.held
    }

    /// Sum of available and held funds.
    pub fn total(&self) -> (r: Amount)
        ensures
            r == self@.total,
    {
        self.total
    }

    /// Whether a chargeback has permanently locked the account.
    pub fn is_frozen(&self) -> (r: bool)
        ensures
            r == self@.frozen,
    {
        self.frozen
    }

    /// The owning client's id.
    pub fn client_id(&self) -> (r: ClientId)
        ensures
            r == self@.client_id,
    {
        self.client_id
    }

    /// The settled record stored under `tx`, if any.
    pub fn record_at(&self, tx: Tx) -> (r: Option<Transaction>)
        ensures
            r == if self@.records.contains_key(tx) {
                Some(self@.records[tx])
            } else {
                None::<Transaction>
            },
    {
        match self.records.get(&tx) {
            None => None,
            Some(t) => Some(*t),
        }
    }

    /// The disputed record stored under `tx`, if any.
    pub fn disputed_at(&self, tx: Tx) -> (r: Option<Transaction>)
        ensures
            r == if self@.disputed.contains_key(tx) {
                Some(self@.disputed[tx])
            } else {
                None::<Transaction>
            },
    {
        match self.disputed.get(&tx) {
            None => None,
            Some(t) => Some(*t),
        }
    }

    /// How many settled records are eligible for dispute.
    pub fn records_count(&self) -> (n: usize)
        ensures
            n == self@.records.len(),
    {
        self.records.len()
    }

    /// How many records are currently under dispute.
    pub fn disputed_count(&self) -> (n: usize)
        ensures
            n == self@.disputed.len(),
    {
        self.disputed.len()
    }

    /// The account's four public quantities as one comma-separated
    /// line - available, held, total (in minor units) and the frozen
    /// flag - for external formatting or printing.
    pub fn summary(&self) -> (s: String)
        ensures
            s@ == summary_seq(self@),
    {
        let mut s = String::new();
        push_decimal(&mut s, self.available);
        s.append(",");
        push_decimal(&mut s, self.held);
        s.append(",");
        push_decimal(&mut s, self.total);
        s.append(",");
        if self.frozen {
            s.append("true");
        } else {
            s.append("false");
        }
        proof {
            reveal_strlit(",");
            reveal_strlit("true");
            reveal_strlit("false");
            assert(s@ =~= summary_seq(self@));
        }
        s
    }

    /// Whether `t` meets [`Account::process`]'s preconditions here:
    /// the updated balances fit the machine word that stores them, and
    /// a settling transaction does not reuse an id currently under
    /// dispute. Transactions the rules reject leave the state
    /// unchanged and always pass this check.
    pub fn can_apply(&self, t: &Transaction) -> (b: bool)
        requires
            self@.wf(),
        ensures
            b == (step(self@, *t).0.fits() && self@.settlement_id_undisputed(*t)),
    {
        if self.frozen {
            return true;
        }
        let client_id = t.client();
        if client_id != self.client_id {
            return true;
        }
        match *t {
            Transaction::Deposit(_, tx, amount) => {
                let undisputed = match self.disputed.get(&tx) {
                    None => true,
                    Some(_) => false,
                };
                undisputed && amount <= u64::MAX - self.total
            },
            Transaction::Withdrawal(_, tx, _) => {
                match self.disputed.get(&tx) {
                    None => true,
                    Some(_) => false,
                }
            },
            Transaction::Dispute(_, tx, _) => {
                let rec_opt: Option<Transaction> = match self.records.get(&tx) {
                    None => None,
                    Some(r) => Some(*r),
                };
                match rec_opt {
                    None => true,
                    Some(rec) => match rec {
                        Transaction::Withdrawal(_, _, amount) => amount <= u64::MAX - self.total,
                        _ => true,
                    },
                }
            },
            Transaction::Resolve(_, _, _) => true,
            Transaction::Chargeback(_, _, _) => true,
        }
    }
}

/// Appends the decimal rendering of `n` to `out`.
fn push_decimal(out: &mut String, n: u64)
    ensures
        final(out)@ == old(out)@ + spec_decimal(n as nat),
    decreases n,
{
    if n >= 10 {
        push_decimal(out, n / 10);
    }
    let d: u64 = n % 10;
    let ds: &str = if d == 0 {
        "0"
    } else if d == 1 {
        "1"
    } else if d == 2 {
        "2"
    } else if d == 3 {
        "3"
    } else if d == 4 {
        "4"
    } else if d == 5 {
        "5"
    } else if d == 6 {
        "6"
    } else if d == 7 {
        "7"
    } else if d == 8 {
        "8"
    } else {
        "9"
    };
    proof {
        reveal_strlit("0");
        reveal_strlit("1");
        reveal_strlit("2");
        reveal_strlit("3");
        reveal_strlit("4");
        reveal_strlit("5");
        reveal_strlit("6");
        reveal_strlit("7");
        reveal_strlit("8");
        reveal_strlit("9");
        assert(ds@ =~= seq![digit_char((n % 10) as nat)]);
    }
    out.append(ds);
    proof {
        assert(out@ =~= old(out)@ + spec_decimal(n as nat));
    }
}

/// Every step from a well-formed state yields a well-formed state: the
/// balances stay conserved and non-negative and the record maps stay
/// disjoint and well-keyed. Settling transactions must respect the
/// data model's per-client uniqueness of transaction ids.
pub proof fn lemma_step_preserves_wf(pre: AccountV, t: Transaction)
    requires
        pre.wf(),
        pre.settlement_id_undisputed(t),
    ensures
        step(pre, t).0.wf(),
{
    let post = step(pre, t).0;
    if !pre.frozen && t.spec_client() == pre.client_id {
        match t {
            Transaction::Deposit(_, _, _) => {
                assert(post.wf());
            },
            Transaction::Withdrawal(_, _, _) => {
                assert(post.wf());
            },
            Transaction::Dispute(_, _, _) => {
                assert(post.wf());
            },
            Transaction::Resolve(_, _, _) => {
                assert(post.wf());
            },
            Transaction::Chargeback(_, _, _) => {
                assert(post.wf());
            },
        }
    }
}

/// Conservation of funds: after any transaction, accepted or rejected,
/// the total balance equals available plus held.
pub proof fn lemma_conservation_of_funds(pre: AccountV, t: Transaction)
    requires
        pre.wf(),
        pre.settlement_id_undisputed(t),
    ensures
        step(pre, t).0.total == step(pre, t).0.available + step(pre, t).0.held,
{
    lemma_step_preserves_wf(pre, t);
}

/// Dispute exclusivity: no transaction id is ever present in the
/// settled records and the disputed records at the same time.
pub proof fn lemma_dispute_exclusivity(pre: AccountV, t: Transaction, k: Tx)
    requires
        pre.wf(),
        pre.settlement_id_undisputed(t),
    ensures
        !(step(pre, t).0.records.contains_key(k) && step(pre, t).0.disputed.contains_key(k)),
{
    lemma_step_preserves_wf(pre, t);
}

/// Frozen-account lockout: once frozen, every transaction of any kind
/// is rejected with `AccountFrozen` and the whole state - balances and
/// both record maps - is left exactly as it was. In particular the
/// account stays frozen forever.
pub proof fn lemma_frozen_rejects_everything(pre: AccountV, t: Transaction)
    requires
        pre.frozen,
    ensures
        step(pre, t).0 == pre,
        step(pre, t).1 == Err::<(), TransactionError>(TransactionError::AccountFrozen),
{
}

/// Disputing the same transaction id twice in succession fails the
/// second time with `UnknownTransaction`: the first dispute moved the
/// id out of the settled records.
pub proof fn lemma_repeated_dispute_fails(pre: AccountV, first: Transaction, second: Transaction)
    requires
        pre.wf(),
        first is Dispute,
        second is Dispute,
        second.spec_tx() == first.spec_tx(),
        second.spec_client() == pre.client_id,
        step(pre, first).1 is Ok,
    ensures
        step(step(pre, first).0, second).1 == Err::<(), TransactionError>(
            TransactionError::UnknownTransaction,
        ),
{
    let mid = step(pre, first).0;
    assert(!mid.records.contains_key(second.spec_tx()));
}

/// Round trip: a dispute followed immediately by a resolve of the same
/// id always succeeds and restores the exact pre-dispute state - the
/// balances are back to what they were and the disputed settlement is
/// returned to the records unchanged.
pub proof fn lemma_dispute_resolve_round_trip(pre: AccountV, d: Transaction, rs: Transaction)
    requires
        pre.wf(),
        d is Dispute,
        rs is Resolve,
        rs.spec_tx() == d.spec_tx(),
        rs.spec_client() == pre.client_id,
        step(pre, d).1 is Ok,
    ensures
        step(step(pre, d).0, rs).1 is Ok,
        step(step(pre, d).0, rs).0 == pre,
{
    let tx = d.spec_tx();
    let mid = step(pre, d).0;
    let rec = pre.records[tx];
    let post = step(mid, rs).0;
    assert(post.records =~= pre.records);
    assert(post.disputed =~= pre.disputed);
    assert(post =~= pre);
}

} // verus!

