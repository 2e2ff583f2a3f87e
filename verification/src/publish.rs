//! Finding the transactions of a checkpoint that publish a package.

use vstd::prelude::*;

use crate::checkpoint::{Checkpoint, Command, ExecutedTransaction, TransactionKind};

verus! {

/// Whether some command is a `Publish`.
pub open spec fn has_publish(cmds: Seq<Command>) -> bool {
    exists|i: int| 0 <= i < cmds.len() && #[trigger] cmds[i] is Publish
}

/// Whether a transaction publishes a package: it is a programmable
/// transaction (or, when `include_system` holds, a programmable system
/// transaction) with a `Publish` command.
pub open spec fn runs_publish(tx: ExecutedTransaction, include_system: bool) -> bool {
    match tx.kind {
        TransactionKind::ProgrammableTransaction(pt) => has_publish(pt.commands@),
        TransactionKind::ProgrammableSystemTransaction(pt) => include_system && has_publish(pt.commands@),
        TransactionKind::Other => false,
    }
}

/// The transactions among `txs` that publish a package, in order.
pub open spec fn published_transactions(txs: Seq<ExecutedTransaction>, include_system: bool) -> Seq<ExecutedTransaction>
    decreases txs.len(),
{
    if txs.len() == 0 {
        seq![]
    } else {
        let prev = published_transactions(txs.drop_last(), include_system);
        if runs_publish(txs.last(), include_system) {
            prev.push(txs.last())
        } else {
            prev
        }
    }
}

/// Every transaction that publishes a package is among the publishing
/// transactions.
pub proof fn lemma_publisher_listed(txs: Seq<ExecutedTransaction>, include_system: bool, t: int)
    requires
        0 <= t < txs.len(),
        runs_publish(txs[t], include_system),
    ensures
        exists|p: int|
            0 <= p < published_transactions(txs, include_system).len() && #[trigger] published_transactions(
                txs,
                include_system,
            )[p] == txs[t],
    decreases txs.len(),
{
    let prev = published_transactions(txs.drop_last(), include_system);
    let all = published_transactions(txs, include_system);
    if t == txs.len() - 1 {
        assert(all[prev.len() as int] == txs[t]);
    } else {
        assert(txs.drop_last()[t] == txs[t]);
        lemma_publisher_listed(txs.drop_last(), include_system, t);
        let p = choose|p: int| 0 <= p < prev.len() && #[trigger] prev[p] == txs[t];
        assert(all[p] == prev[p]);
    }
}

fn has_publish_command(cmds: &Vec<Command>) -> (res: bool)
    ensures
        res == has_publish(cmds@),
{
    let mut i: usize = 0;
    while i < cmds.len()
        invariant
            0 <= i <= cmds@.len(),
            forall|j: int| 0 <= j < i ==> !(#[trigger] cmds@[j] is Publish),
        decreases cmds@.len() - i,
    {
        if let Command::Publish = &cmds[i] {
            return true;
        }
        i = i + 1;
    }
    false
}

/// The positions, in order, of the transactions of the checkpoint that
/// publish a package.
pub fn publish_command_exists(checkpoint: &Checkpoint, include_system: bool) -> (positions: Vec<usize>)
    ensures
        positions@.len() == published_transactions(checkpoint.transactions@, include_system).len(),
        forall|k: int|
            0 <= k < positions@.len() ==> #[trigger] positions@[k] < checkpoint.transactions@.len()
                && checkpoint.transactions@[positions@[k] as int] == published_transactions(
                checkpoint.transactions@,
                include_system,
            )[k],
        forall|a: int, b: int| 0 <= a < b < positions@.len() ==> positions@[a] < positions@[b],
{
    let txs = &checkpoint.transactions;
    let mut positions: Vec<usize> = Vec::new();
    let mut t: usize = 0;
    while t < txs.len()
        invariant
            0 <= t <= txs@.len(),
            txs == &checkpoint.transactions,
            positions@.len() == published_transactions(txs@.take(t as int), include_system).len(),
            forall|k: int|
                0 <= k < positions@.len() ==> #[trigger] positions@[k] < txs@.len() && txs@[positions@[k] as int]
                    == published_transactions(txs@.take(t as int), include_system)[k],
            forall|k: int| 0 <= k < positions@.len() ==> #[trigger] positions@[k] < t,
            forall|a: int, b: int| 0 <= a < b < positions@.len() ==> positions@[a] < positions@[b],
        decreases txs@.len() - t,
    {
        assert(txs@.take(t + 1).drop_last() =~= txs@.take(t as int));
        assert(txs@.take(t + 1).last() == txs@[t as int]);
        let publishes = match &txs[t].kind {
            TransactionKind::ProgrammableTransaction(pt) => has_publish_command(&pt.commands),
            TransactionKind::ProgrammableSystemTransaction(pt) => include_system && has_publish_command(
                &pt.commands,
            ),
            TransactionKind::Other => false,
        };
        if publishes {
            positions.push(t);
        }
        t = t + 1;
    }
    assert(txs@.take(txs@.len() as int) =~= txs@);
    positions
}

} // verus!
