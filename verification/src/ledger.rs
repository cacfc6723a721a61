//! The ledger: a keyed collection of accounts, one per client, created
//! lazily on a client's first transaction.

use std::collections::HashMap;
use vstd::prelude::*;

use crate::account::Account;
use crate::account::AccountV;
use crate::account::ClientId;
use crate::account::Transaction;
use crate::account::TransactionError;
use crate::account::step;

verus! {

broadcast use vstd::std_specs::hash::group_hash_axioms;

/// The collection of all accounts, keyed by client id.
pub type Ledger = HashMap<ClientId, Account>;

/// Well-formedness of a ledger: every stored account is well-formed
/// and keyed by its own client id.
pub open spec fn ledger_wf(l: Map<ClientId, Account>) -> bool {
    forall|c: ClientId| #[trigger] l.contains_key(c) ==> l[c]@.wf() && l[c]@.client_id == c
}

/// The account state a transaction for `c` acts on: the stored one, or
/// a fresh account when `c` has not been seen yet.
pub open spec fn account_view_for(l: Map<ClientId, Account>, c: ClientId) -> AccountV {
    if l.contains_key(c) {
        l[c]@
    } else {
        AccountV::fresh(c)
    }
}

/// An empty ledger.
pub fn new_ledger() -> (l: Ledger)
    ensures
        l@ == Map::<ClientId, Account>::empty(),
        ledger_wf(l@),
{
    HashMap::new()
}

/// Route one transaction: get or create the account for its client id
/// and process it there. The routed account takes exactly one
/// [`step`]; every other account is untouched.
pub fn apply_transaction(ledger: &mut Ledger, t: Transaction) -> (r: Result<
    (),
    TransactionError,
>)
    requires
        ledger_wf(old(ledger)@),
        account_view_for(old(ledger)@, t.spec_client()).settlement_id_undisputed(t),
        step(account_view_for(old(ledger)@, t.spec_client()), t).0.fits(),
    ensures
        ledger_wf(final(ledger)@),
        final(ledger)@.dom() == old(ledger)@.dom().insert(t.spec_client()),
        final(ledger)@.contains_key(t.spec_client()),
        final(ledger)@[t.spec_client()]@ == step(
            account_view_for(old(ledger)@, t.spec_client()),
            t,
        ).0,
        r == step(account_view_for(old(ledger)@, t.spec_client()), t).1,
        forall|c: ClientId|
            c != t.spec_client() && #[trigger] old(ledger)@.contains_key(c) ==> final(ledger)@.contains_key(c) && final(ledger)@[c] == old(ledger)@[c],
{
    let client_id = t.client();
    let mut account = match ledger.remove(&client_id) {
        Some(a) => a,
        None => Account::new(client_id),
    };
    let r = account.process(t);
    ledger.insert(client_id, account);
    proof {
        assert(ledger@.dom() =~= old(ledger)@.dom().insert(t.spec_client()));
    }
    r
}

/// Whether `t` meets [`apply_transaction`]'s preconditions: the routed
/// account's updated balances fit the machine word that stores them,
/// and a settling transaction does not reuse an id currently under
/// dispute there.
pub fn can_apply_to_ledger(ledger: &Ledger, t: &Transaction) -> (b: bool)
    requires
        ledger_wf(ledger@),
    ensures
        b == (step(account_view_for(ledger@, t.spec_client()), *t).0.fits()
            && account_view_for(ledger@, t.spec_client()).settlement_id_undisputed(*t)),
{
    let client_id = t.client();
    match ledger.get(&client_id) {
        None => true,
        Some(a) => a.can_apply(t),
    }
}

/// One routed transaction at the specification level: the account the
/// transaction belongs to takes one [`step`]. A transaction outside
/// [`apply_transaction`]'s preconditions (its balances would not fit
/// the machine word, or a settling id is currently under dispute) is
/// skipped and the ledger is unchanged.
pub open spec fn ledger_step(pre: Map<ClientId, AccountV>, t: Transaction) -> Map<
    ClientId,
    AccountV,
> {
    let c = t.spec_client();
    let av = if pre.contains_key(c) {
        pre[c]
    } else {
        AccountV::fresh(c)
    };
    if step(av, t).0.fits() && av.settlement_id_undisputed(t) {
        pre.insert(c, step(av, t).0)
    } else {
        pre
    }
}

/// The ledger after a whole batch of transactions, applied in arrival
/// order.
pub open spec fn run_ledger(pre: Map<ClientId, AccountV>, txs: Seq<Transaction>) -> Map<
    ClientId,
    AccountV,
>
    decreases txs.len(),
{
    if txs.len() == 0 {
        pre
    } else {
        run_ledger(ledger_step(pre, txs[0]), txs.drop_first())
    }
}

/// The per-client account states a ledger holds.
pub open spec fn ledger_views(l: Map<ClientId, Account>) -> Map<ClientId, AccountV> {
    Map::new(|c: ClientId| l.contains_key(c), |c: ClientId| l[c]@)
}

/// Running a batch and then one more transaction is one `ledger_step`
/// after running the batch.
proof fn lemma_run_ledger_push(pre: Map<ClientId, AccountV>, txs: Seq<Transaction>, t: Transaction)
    ensures
        run_ledger(pre, txs.push(t)) == ledger_step(run_ledger(pre, txs), t),
    decreases txs.len(),
{
    reveal_with_fuel(run_ledger, 3);
    if txs.len() == 0 {
        assert(txs.push(t)[0] == t);
        assert(txs.push(t).drop_first() =~= Seq::<Transaction>::empty());
    } else {
        assert(txs.push(t)[0] == txs[0]);
        assert(txs.push(t).drop_first() =~= txs.drop_first().push(t));
        lemma_run_ledger_push(ledger_step(pre, txs[0]), txs.drop_first(), t);
    }
}

/// Build a ledger from a whole batch of transactions, in arrival
/// order: each one is routed to its client's account, lazily created;
/// a failed transaction never aborts the batch, and one outside
/// [`apply_transaction`]'s preconditions is skipped. The result holds
/// exactly the account states of [`run_ledger`] on an empty ledger.
pub fn process_transactions(txs: &Vec<Transaction>) -> (l: Ledger)
    ensures
        ledger_wf(l@),
        ledger_views(l@) == run_ledger(Map::empty(), txs@),
{
    let mut ledger: Ledger = new_ledger();
    proof {
        assert(ledger_views(ledger@) =~= run_ledger(Map::empty(), txs@.take(0)));
    }
    let n = txs.len();
    let mut i: usize = 0;
    while i < n
        invariant
            i <= n,
            n == txs@.len(),
            ledger_wf(ledger@),
            ledger_views(ledger@) == run_ledger(Map::empty(), txs@.take(i as int)),
        decreases n - i,
    {
        let t = txs[i];
        proof {
            assert(txs@.take(i as int).push(t) =~= txs@.take(i as int + 1));
            lemma_run_ledger_push(Map::empty(), txs@.take(i as int), t);
        }
        if can_apply_to_ledger(&ledger, &t) {
            let _ = apply_transaction(&mut ledger, t);
        }
        proof {
            assert(ledger_views(ledger@) =~= run_ledger(Map::empty(), txs@.take(i as int + 1)));
        }
        i = i + 1;
    }
    proof {
        assert(txs@.take(n as int) =~= txs@);
    }
    ledger
}

} // verus!
