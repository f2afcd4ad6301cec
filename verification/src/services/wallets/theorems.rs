//! What holds of every history of transfers: the supply is conserved, no
//! sender is overdrawn, and a transfer that was applied cannot be applied
//! again.

use crate::services::wallets::error::Error;
use crate::services::wallets::record_or_default;
use crate::services::wallets::repo::Wallet;
use crate::services::wallets::TxTransfer;
use vstd::prelude::*;

verus! {

/// The sum of the balances of all accounts of a finite table.
pub open spec fn total_balance(ledger: Map<Seq<u8>, Wallet>) -> nat
    decreases ledger.dom().len(),
{
    if ledger.dom().finite() && ledger.dom().len() > 0 {
        let key = ledger.dom().choose();
        ledger[key].balance as nat + total_balance(ledger.remove(key))
    } else {
        0
    }
}

/// The table after the transfers of `txs` were executed in order, starting
/// from `ledger`.
pub open spec fn run(ledger: Map<Seq<u8>, Wallet>, txs: Seq<TxTransfer>) -> Map<Seq<u8>, Wallet>
    decreases txs.len(),
{
    if txs.len() == 0 {
        ledger
    } else {
        txs.last().ledger_after(run(ledger, txs.drop_last()))
    }
}

/// Whether every transfer of `txs`, executed in order from `ledger`, stays
/// within the range of the counters.
pub open spec fn run_within_limits(ledger: Map<Seq<u8>, Wallet>, txs: Seq<TxTransfer>) -> bool {
    forall|k: int|
        0 <= k < txs.len() ==> (#[trigger] txs[k]).within_limits(run(ledger, txs.take(k)))
}

/// Whether no transfer of `txs` names its sender as its receiver, as
/// `verify` demands.
pub open spec fn all_between_two_accounts(txs: Seq<TxTransfer>) -> bool {
    forall|k: int| 0 <= k < txs.len() ==> (#[trigger] txs[k]).from@ != txs[k].to@
}

/// The total is the balance of any one account plus the total of the others.
pub proof fn lemma_total_split(ledger: Map<Seq<u8>, Wallet>, key: Seq<u8>)
    requires
        ledger.dom().finite(),
        ledger.contains_key(key),
    ensures
        total_balance(ledger) == ledger[key].balance + total_balance(ledger.remove(key)),
    decreases ledger.dom().len(),
{
    let first = ledger.dom().choose();
    if first != key {
        lemma_total_split(ledger.remove(first), key);
        lemma_total_split(ledger.remove(key), first);
        assert(ledger.remove(first).remove(key) =~= ledger.remove(key).remove(first));
    }
}

/// Writing a record changes the total by the difference between the new
/// balance and the one that was stored, if any.
pub proof fn lemma_total_insert(ledger: Map<Seq<u8>, Wallet>, key: Seq<u8>, wallet: Wallet)
    requires
        ledger.dom().finite(),
    ensures
        total_balance(ledger.insert(key, wallet)) + record_or_default(ledger, key).balance
            == total_balance(ledger) + wallet.balance,
{
    lemma_total_split(ledger.insert(key, wallet), key);
    assert(ledger.insert(key, wallet).remove(key) =~= ledger.remove(key));
    if ledger.contains_key(key) {
        lemma_total_split(ledger, key);
    } else {
        assert(ledger.remove(key) =~= ledger);
    }
}

/// A transfer that fails leaves the table as it was.
pub proof fn theorem_failure_changes_nothing(tx: TxTransfer, ledger: Map<Seq<u8>, Wallet>)
    requires
        tx.outcome(ledger) is Err,
    ensures
        tx.ledger_after(ledger) == ledger,
{
}

/// A transfer that succeeds takes from the sender what it gives to the
/// receiver: the sender held at least the amount, holds that much less
/// afterwards, and the two balances together are what they were.
pub proof fn theorem_success_moves_amount(tx: TxTransfer, ledger: Map<Seq<u8>, Wallet>)
    requires
        tx.from@ != tx.to@,
        tx.within_limits(ledger),
        tx.outcome(ledger) is Ok,
    ensures
        ledger.contains_key(tx.from@),
        ledger[tx.from@].balance >= tx.amount,
        tx.ledger_after(ledger)[tx.from@].balance == ledger[tx.from@].balance - tx.amount,
        tx.ledger_after(ledger)[tx.to@].balance == record_or_default(ledger, tx.to@).balance
            + tx.amount,
        tx.ledger_after(ledger)[tx.from@].balance + tx.ledger_after(ledger)[tx.to@].balance
            == ledger[tx.from@].balance + record_or_default(ledger, tx.to@).balance,
        tx.ledger_after(ledger)[tx.from@].nonce == ledger[tx.from@].nonce + 1,
        tx.ledger_after(ledger)[tx.to@].nonce == record_or_default(ledger, tx.to@).nonce + 1,
        forall|key: Seq<u8>|
            key != tx.from@ && key != tx.to@ ==> (tx.ledger_after(ledger).contains_key(key)
                <==> ledger.contains_key(key)) && (ledger.contains_key(key) ==> tx.ledger_after(
                ledger,
            )[key] == ledger[key]),
{
}

/// Conservation: a transfer between two accounts, applied or refused,
/// leaves the sum of all balances unchanged.
pub proof fn theorem_transfer_conserves_supply(tx: TxTransfer, ledger: Map<Seq<u8>, Wallet>)
    requires
        ledger.dom().finite(),
        tx.from@ != tx.to@,
        tx.within_limits(ledger),
    ensures
        tx.ledger_after(ledger).dom().finite(),
        total_balance(tx.ledger_after(ledger)) == total_balance(ledger),
{
    if tx.outcome(ledger) is Ok {
        let sender = ledger[tx.from@].decreased(tx.amount);
        let receiver = record_or_default(ledger, tx.to@).increased(tx.amount);
        let middle = ledger.insert(tx.from@, sender);
        assert(tx.ledger_after(ledger) == middle.insert(tx.to@, receiver));
        lemma_total_insert(ledger, tx.from@, sender);
        lemma_total_insert(middle, tx.to@, receiver);
        assert(record_or_default(middle, tx.to@) == record_or_default(ledger, tx.to@));
    }
}

/// Where the supply fits the range of a balance, so does every balance
/// after a transfer between two accounts: the receiver can always take what
/// the sender holds.
pub proof fn theorem_bounded_supply_bounds_balances(tx: TxTransfer, ledger: Map<Seq<u8>, Wallet>)
    requires
        ledger.dom().finite(),
        total_balance(ledger) <= u64::MAX,
        tx.from@ != tx.to@,
        ledger.contains_key(tx.from@),
        ledger[tx.from@].balance >= tx.amount,
    ensures
        record_or_default(ledger, tx.to@).balance + tx.amount <= u64::MAX,
{
    lemma_total_split(ledger, tx.from@);
    if ledger.contains_key(tx.to@) {
        lemma_total_split(ledger.remove(tx.from@), tx.to@);
    }
}

/// The table stays finite over a history.
pub proof fn lemma_run_finite(ledger: Map<Seq<u8>, Wallet>, txs: Seq<TxTransfer>)
    requires
        ledger.dom().finite(),
    ensures
        run(ledger, txs).dom().finite(),
    decreases txs.len(),
{
    if txs.len() > 0 {
        lemma_run_finite(ledger, txs.drop_last());
    }
}

/// Conservation over a history: whatever transfers between two accounts are
/// executed, in whatever order, the sum of all balances stays what it was.
pub proof fn theorem_history_conserves_supply(ledger: Map<Seq<u8>, Wallet>, txs: Seq<TxTransfer>)
    requires
        ledger.dom().finite(),
        all_between_two_accounts(txs),
        run_within_limits(ledger, txs),
    ensures
        total_balance(run(ledger, txs)) == total_balance(ledger),
    decreases txs.len(),
{
    if txs.len() > 0 {
        let earlier = txs.drop_last();
        assert forall|k: int| 0 <= k < earlier.len() implies (#[trigger] earlier[k]).within_limits(
            run(ledger, earlier.take(k)),
        ) by {
            assert(earlier[k] == txs[k]);
            assert(earlier.take(k) =~= txs.take(k));
        }
        assert forall|k: int| 0 <= k < earlier.len() implies (#[trigger] earlier[k]).from@
            != earlier[k].to@ by {
            assert(earlier[k] == txs[k]);
        }
        theorem_history_conserves_supply(ledger, earlier);
        lemma_run_finite(ledger, earlier);
        let last = txs.len() - 1;
        assert(txs.take(last) =~= earlier);
        assert(txs[last].within_limits(run(ledger, txs.take(last))));
        theorem_transfer_conserves_supply(txs.last(), run(ledger, earlier));
    }
}

/// No overdraft: at every point of a history, a transfer is applied only
/// where the sender holds at least the amount, and the balance it leaves
/// with a sender who is not the receiver is the difference, which is not
/// negative.
pub proof fn theorem_no_negative_balance(
    ledger: Map<Seq<u8>, Wallet>,
    txs: Seq<TxTransfer>,
    k: int,
)
    requires
        0 <= k < txs.len(),
        txs[k].outcome(run(ledger, txs.take(k))) is Ok,
    ensures
        run(ledger, txs.take(k)).contains_key(txs[k].from@),
        run(ledger, txs.take(k))[txs[k].from@].balance - txs[k].amount >= 0,
        txs[k].from@ != txs[k].to@ ==> run(ledger, txs.take(k + 1))[txs[k].from@].balance == run(
            ledger,
            txs.take(k),
        )[txs[k].from@].balance - txs[k].amount,
{
    let upto = txs.take(k + 1);
    assert(upto.drop_last() =~= txs.take(k));
    assert(upto.last() == txs[k]);
}

/// An account that is in the table stays in it, and its nonce never falls.
pub proof fn lemma_nonce_never_falls(tx: TxTransfer, ledger: Map<Seq<u8>, Wallet>, key: Seq<u8>)
    requires
        tx.within_limits(ledger),
        ledger.contains_key(key),
    ensures
        tx.ledger_after(ledger).contains_key(key),
        tx.ledger_after(ledger)[key].nonce >= ledger[key].nonce,
{
}

/// Over a history, an account that is in the table stays in it, and its
/// nonce never falls.
pub proof fn lemma_nonce_never_falls_in_history(
    ledger: Map<Seq<u8>, Wallet>,
    txs: Seq<TxTransfer>,
    key: Seq<u8>,
)
    requires
        run_within_limits(ledger, txs),
        ledger.contains_key(key),
    ensures
        run(ledger, txs).contains_key(key),
        run(ledger, txs)[key].nonce >= ledger[key].nonce,
    decreases txs.len(),
{
    if txs.len() > 0 {
        let earlier = txs.drop_last();
        assert forall|k: int| 0 <= k < earlier.len() implies (#[trigger] earlier[k]).within_limits(
            run(ledger, earlier.take(k)),
        ) by {
            assert(earlier[k] == txs[k]);
            assert(earlier.take(k) =~= txs.take(k));
        }
        lemma_nonce_never_falls_in_history(ledger, earlier, key);
        let last = txs.len() - 1;
        assert(txs.take(last) =~= earlier);
        assert(txs[last].within_limits(run(ledger, txs.take(last))));
        lemma_nonce_never_falls(txs.last(), run(ledger, earlier), key);
    }
}

/// Replay protection: a transfer that was applied is refused with
/// `InvalidNonce` when it is executed again, at once or after any further
/// transfers, and the refusal changes nothing.
pub proof fn theorem_replay_is_rejected(
    tx: TxTransfer,
    ledger: Map<Seq<u8>, Wallet>,
    later: Seq<TxTransfer>,
)
    requires
        tx.within_limits(ledger),
        tx.outcome(ledger) is Ok,
        run_within_limits(tx.ledger_after(ledger), later),
    ensures
        tx.outcome(run(tx.ledger_after(ledger), later)) == Err::<(), Error>(Error::InvalidNonce),
        tx.ledger_after(run(tx.ledger_after(ledger), later)) == run(tx.ledger_after(ledger), later),
{
    let applied = tx.ledger_after(ledger);
    assert(applied.contains_key(tx.from@));
    assert(applied[tx.from@].nonce == tx.nonce + 1);
    lemma_nonce_never_falls_in_history(applied, later, tx.from@);
}

/// Determinism: the table after a history is a function of the table before
/// it and of the transfers in their order, so two replicas that start alike
/// and execute the same history end alike.
pub proof fn theorem_same_history_same_table(
    first: Map<Seq<u8>, Wallet>,
    second: Map<Seq<u8>, Wallet>,
    txs: Seq<TxTransfer>,
)
    requires
        first == second,
    ensures
        run(first, txs) == run(second, txs),
{
}

} // verus!
