//! The single-cap creation pipeline: for each programmable transaction that
//! publishes a package, the first upgrade cap among its output objects
//! becomes an `upgrade_caps` row.

use vstd::prelude::*;

use crate::cap_models::{cap_row, cap_views, UpgradeCap, UpgradeCapView};
use crate::checkpoint::{
    owner_label, owner_text, Checkpoint, ExecutedTransaction, Object, ObjectData, ProgrammableTransaction,
    TransactionKind, UpgradeCapValue,
};
use crate::policy::UpgradeCompatibilityPolicyEnum;
use crate::publish::{lemma_publisher_listed, publish_command_exists, published_transactions, runs_publish};

verus! {

pub struct UpgradeCapHandler;

/// An upgrade cap with its owner.
pub struct OwnableUpgradeCap {
    upgrade_cap: UpgradeCapValue,
    owner: String,
}

/// Whether `c` records the upgrade cap object `obj`.
pub closed spec fn records_cap(c: OwnableUpgradeCap, obj: Object) -> bool {
    let cap = obj.data->UpgradeCap_0;
    &&& c.upgrade_cap.id@ == cap.id@
    &&& c.upgrade_cap.package@ == cap.package@
    &&& c.upgrade_cap.version == cap.version
    &&& c.upgrade_cap.policy == cap.policy
    &&& c.owner@ == owner_text(obj.owner)
}

/// The first upgrade cap among `objects` at or after position `i`.
pub open spec fn first_cap_from(objects: Seq<Object>, i: int) -> Option<Object>
    decreases objects.len() - i,
{
    if i < 0 || i >= objects.len() {
        None
    } else if objects[i].data is UpgradeCap {
        Some(objects[i])
    } else {
        first_cap_from(objects, i + 1)
    }
}

/// The first upgrade cap among the output objects of a transaction.
pub open spec fn first_output_cap(tx: ExecutedTransaction) -> Option<Object> {
    first_cap_from(tx.output_objects@, 0)
}

/// The rows of the publishing transactions `pubs`: at most one each, for
/// the first upgrade cap among its output objects.
pub open spec fn published_cap_rows(cp: Checkpoint, pubs: Seq<ExecutedTransaction>) -> Seq<UpgradeCapView>
    decreases pubs.len(),
{
    if pubs.len() == 0 {
        seq![]
    } else {
        let prev = published_cap_rows(cp, pubs.drop_last());
        match first_output_cap(pubs.last()) {
            Some(obj) => prev.push(cap_row(cp, pubs.last(), obj)),
            None => prev,
        }
    }
}

/// Each publishing transaction yields at most one cap row, and every row
/// has the `Compatible` policy, the digest of one of the publishing
/// transactions, and the checkpoint's number and time as both creation and
/// update time.
pub proof fn lemma_at_most_one_row_per_publish(cp: Checkpoint, pubs: Seq<ExecutedTransaction>)
    ensures
        published_cap_rows(cp, pubs).len() <= pubs.len(),
        forall|i: int|
            0 <= i < published_cap_rows(cp, pubs).len() ==> {
                let row = #[trigger] published_cap_rows(cp, pubs)[i];
                &&& row.policy == UpgradeCompatibilityPolicyEnum::Compatible
                &&& row.init_seq_checkpoint == cp.sequence_number as i64
                &&& row.created_at == cp.timestamp_ms as i64
                &&& row.updated_at == row.created_at
                &&& exists|t: int| 0 <= t < pubs.len() && (#[trigger] pubs[t]).digest@ == row.init_tx_digest
            },
    decreases pubs.len(),
{
    if pubs.len() > 0 {
        let init = pubs.drop_last();
        lemma_at_most_one_row_per_publish(cp, init);
        let prev = published_cap_rows(cp, init);
        let all = published_cap_rows(cp, pubs);
        assert forall|i: int| 0 <= i < all.len() implies {
            let row = #[trigger] all[i];
            &&& row.policy == UpgradeCompatibilityPolicyEnum::Compatible
            &&& row.init_seq_checkpoint == cp.sequence_number as i64
            &&& row.created_at == cp.timestamp_ms as i64
            &&& row.updated_at == row.created_at
            &&& exists|t: int| 0 <= t < pubs.len() && (#[trigger] pubs[t]).digest@ == row.init_tx_digest
        } by {
            if i < prev.len() {
                assert(all[i] == prev[i]);
                let t = choose|t: int| 0 <= t < init.len() && (#[trigger] init[t]).digest@ == prev[i].init_tx_digest;
                assert(pubs[t] == init[t]);
            } else {
                assert(pubs[pubs.len() - 1] == pubs.last());
            }
        }
    }
}

/// The cap rows of publishing transactions, split anywhere, are the rows of
/// the first part followed by those of the second.
pub proof fn lemma_published_cap_rows_concat(
    cp: Checkpoint,
    a: Seq<ExecutedTransaction>,
    b: Seq<ExecutedTransaction>,
)
    ensures
        published_cap_rows(cp, a + b) == published_cap_rows(cp, a) + published_cap_rows(cp, b),
    decreases b.len(),
{
    if b.len() == 0 {
        assert(a + b =~= a);
        assert(published_cap_rows(cp, a) + published_cap_rows(cp, b) =~= published_cap_rows(cp, a));
    } else {
        lemma_published_cap_rows_concat(cp, a, b.drop_last());
        assert((a + b).drop_last() =~= a + b.drop_last());
        assert((a + b).last() == b.last());
        assert(published_cap_rows(cp, a + b) =~= published_cap_rows(cp, a) + published_cap_rows(cp, b));
    }
}

proof fn lemma_first_cap_at(objects: Seq<Object>, o: int, i: int)
    requires
        0 <= i <= o < objects.len(),
        objects[o].data is UpgradeCap,
        forall|j: int| 0 <= j < o ==> !((#[trigger] objects[j]).data is UpgradeCap),
    ensures
        first_cap_from(objects, i) == Some(objects[o]),
    decreases o - i,
{
    if i < o {
        lemma_first_cap_at(objects, o, i + 1);
    }
}

proof fn lemma_no_cap_from(objects: Seq<Object>, i: int)
    requires
        0 <= i <= objects.len(),
        forall|j: int| 0 <= j < objects.len() ==> !((#[trigger] objects[j]).data is UpgradeCap),
    ensures
        first_cap_from(objects, i) is None,
    decreases objects.len() - i,
{
    if i < objects.len() {
        lemma_no_cap_from(objects, i + 1);
    }
}

/// A publishing transaction yields exactly one row, for the first upgrade
/// cap among its output objects: the row's object id is that cap's id, its
/// package the cap's package, its owner the cap object's owner, its version
/// the cap's version, with the `Compatible` policy, the transaction's
/// digest and the checkpoint's number and time.
pub proof fn lemma_published_cap_row_of_first_cap(cp: Checkpoint, tx: ExecutedTransaction, o: int)
    requires
        0 <= o < tx.output_objects@.len(),
        tx.output_objects@[o].data is UpgradeCap,
        forall|j: int| 0 <= j < o ==> !((#[trigger] tx.output_objects@[j]).data is UpgradeCap),
    ensures
        published_cap_rows(cp, seq![tx]) == seq![
            UpgradeCapView {
                object_id: tx.output_objects@[o].data->UpgradeCap_0.id@,
                package_id: tx.output_objects@[o].data->UpgradeCap_0.package@,
                owner_address: owner_text(tx.output_objects@[o].owner),
                policy: UpgradeCompatibilityPolicyEnum::Compatible,
                version: tx.output_objects@[o].data->UpgradeCap_0.version as i64,
                init_seq_checkpoint: cp.sequence_number as i64,
                init_tx_digest: tx.digest@,
                created_at: cp.timestamp_ms as i64,
                updated_at: cp.timestamp_ms as i64,
            },
        ],
{
    lemma_first_cap_at(tx.output_objects@, o, 0);
    let none = Seq::<ExecutedTransaction>::empty();
    assert(published_cap_rows(cp, none) == Seq::<UpgradeCapView>::empty());
    assert(seq![tx].drop_last() =~= none);
    assert(seq![tx].last() == tx);
    assert(published_cap_rows(cp, seq![tx]) =~= seq![cap_row(cp, tx, tx.output_objects@[o])]);
}

/// A publishing transaction none of whose output objects is an upgrade cap
/// yields no row.
pub proof fn lemma_published_without_cap(cp: Checkpoint, tx: ExecutedTransaction)
    requires
        forall|j: int| 0 <= j < tx.output_objects@.len() ==> !((#[trigger] tx.output_objects@[j]).data is UpgradeCap),
    ensures
        published_cap_rows(cp, seq![tx]).len() == 0,
{
    lemma_no_cap_from(tx.output_objects@, 0);
    let none = Seq::<ExecutedTransaction>::empty();
    assert(published_cap_rows(cp, none) == Seq::<UpgradeCapView>::empty());
    assert(seq![tx].drop_last() =~= none);
    assert(seq![tx].last() == tx);
}

proof fn lemma_publish_row_present(cp: Checkpoint, pubs: Seq<ExecutedTransaction>, p: int, obj: Object)
    requires
        0 <= p < pubs.len(),
        first_output_cap(pubs[p]) == Some(obj),
    ensures
        exists|i: int|
            0 <= i < published_cap_rows(cp, pubs).len() && #[trigger] published_cap_rows(cp, pubs)[i] == cap_row(
                cp,
                pubs[p],
                obj,
            ),
    decreases pubs.len(),
{
    let prev = published_cap_rows(cp, pubs.drop_last());
    let all = published_cap_rows(cp, pubs);
    if p == pubs.len() - 1 {
        assert(all[prev.len() as int] == cap_row(cp, pubs[p], obj));
    } else {
        assert(pubs.drop_last()[p] == pubs[p]);
        lemma_publish_row_present(cp, pubs.drop_last(), p, obj);
        let i = choose|i: int| 0 <= i < prev.len() && #[trigger] prev[i] == cap_row(cp, pubs[p], obj);
        assert(all[i] == prev[i]);
    }
}

/// Every publishing programmable transaction of a checkpoint, at any
/// position and whether or not it succeeded, is recorded by the first
/// upgrade cap among its output objects: a cap row gives that cap's id,
/// package and version, the cap object's owner, the `Compatible` policy,
/// the transaction's digest, and the checkpoint's number and time.
pub proof fn lemma_every_publish_recorded(cp: Checkpoint, t: int, pt: ProgrammableTransaction, q: int, o: int)
    requires
        0 <= t < cp.transactions@.len(),
        cp.transactions@[t].kind == TransactionKind::ProgrammableTransaction(pt),
        0 <= q < pt.commands@.len(),
        pt.commands@[q] is Publish,
        0 <= o < cp.transactions@[t].output_objects@.len(),
        cp.transactions@[t].output_objects@[o].data is UpgradeCap,
        forall|j: int|
            0 <= j < o ==> !((#[trigger] cp.transactions@[t].output_objects@[j]).data is UpgradeCap),
    ensures
        exists|i: int|
            0 <= i < published_cap_rows(cp, published_transactions(cp.transactions@, false)).len()
                && #[trigger] published_cap_rows(cp, published_transactions(cp.transactions@, false))[i] == (
            UpgradeCapView {
                object_id: cp.transactions@[t].output_objects@[o].data->UpgradeCap_0.id@,
                package_id: cp.transactions@[t].output_objects@[o].data->UpgradeCap_0.package@,
                owner_address: owner_text(cp.transactions@[t].output_objects@[o].owner),
                policy: UpgradeCompatibilityPolicyEnum::Compatible,
                version: cp.transactions@[t].output_objects@[o].data->UpgradeCap_0.version as i64,
                init_seq_checkpoint: cp.sequence_number as i64,
                init_tx_digest: cp.transactions@[t].digest@,
                created_at: cp.timestamp_ms as i64,
                updated_at: cp.timestamp_ms as i64,
            }),
{
    let txs = cp.transactions@;
    let tx = txs[t];
    let obj = tx.output_objects@[o];
    lemma_first_cap_at(tx.output_objects@, o, 0);
    assert(pt.commands@[q] is Publish);
    assert(runs_publish(tx, false));
    lemma_publisher_listed(txs, false, t);
    let pubs = published_transactions(txs, false);
    let p = choose|p: int| 0 <= p < pubs.len() && #[trigger] pubs[p] == tx;
    lemma_publish_row_present(cp, pubs, p, obj);
}

/// The first upgrade cap among the output objects of `tx`, with its owner.
fn get_upgrade_cap(tx: &ExecutedTransaction) -> (res: Option<OwnableUpgradeCap>)
    ensures
        res is Some <==> first_output_cap(*tx) is Some,
        res matches Some(c) ==> records_cap(c, first_output_cap(*tx)->0),
{
    let objects = &tx.output_objects;
    let mut i: usize = 0;
    while i < objects.len()
        invariant
            0 <= i <= objects@.len(),
            objects == &tx.output_objects,
            first_output_cap(*tx) == first_cap_from(objects@, i as int),
        decreases objects@.len() - i,
    {
        let obj = &objects[i];
        let owner = owner_label(&obj.owner);
        if let ObjectData::UpgradeCap(cap) = &obj.data {
            return Some(
                OwnableUpgradeCap {
                    upgrade_cap: UpgradeCapValue {
                        id: cap.id.clone(),
                        package: cap.package.clone(),
                        version: cap.version,
                        policy: cap.policy,
                    },
                    owner,
                },
            );
        }
        i = i + 1;
    }
    None
}

impl UpgradeCapHandler {
    /// The cap rows of a checkpoint: for each programmable transaction that
    /// publishes a package, whether or not it succeeded, one row for the
    /// first upgrade cap among its output objects, with the `Compatible`
    /// policy and the checkpoint's number and time.
    pub fn process(&self, checkpoint: &Checkpoint) -> (rows: Vec<UpgradeCap>)
        ensures
            cap_views(rows@) == published_cap_rows(
                *checkpoint,
                published_transactions(checkpoint.transactions@, false),
            ),
    {
        let checkpoint_seq = checkpoint.sequence_number as i64;
        let timestamp = checkpoint.timestamp_ms as i64;
        let published = publish_command_exists(checkpoint, false);
        let ghost pubs = published_transactions(checkpoint.transactions@, false);
        if published.len() == 0 {
            return Vec::new();
        }
        let mut rows: Vec<UpgradeCap> = Vec::new();
        let mut p: usize = 0;
        while p < published.len()
            invariant
                0 <= p <= published@.len(),
                pubs == published_transactions(checkpoint.transactions@, false),
                published@.len() == pubs.len(),
                forall|k: int|
                    0 <= k < published@.len() ==> #[trigger] published@[k] < checkpoint.transactions@.len()
                        && checkpoint.transactions@[published@[k] as int] == pubs[k],
                checkpoint_seq == checkpoint.sequence_number as i64,
                timestamp == checkpoint.timestamp_ms as i64,
                cap_views(rows@) == published_cap_rows(*checkpoint, pubs.take(p as int)),
            decreases published@.len() - p,
        {
            assert(pubs.take(p + 1).drop_last() =~= pubs.take(p as int));
            assert(pubs.take(p + 1).last() == pubs[p as int]);
            let ghost prev = rows@;
            let tx = &checkpoint.transactions[published[p]];
            assert(*tx == pubs[p as int]);
            if let Some(ownable) = get_upgrade_cap(tx) {
                let row = UpgradeCap {
                    object_id: ownable.upgrade_cap.id.clone(),
                    package_id: ownable.upgrade_cap.package.clone(),
                    owner_address: ownable.owner.clone(),
                    policy: UpgradeCompatibilityPolicyEnum::Compatible,
                    version: ownable.upgrade_cap.version as i64,
                    init_seq_checkpoint: checkpoint_seq,
                    init_tx_digest: tx.digest.clone(),
                    created_at: timestamp,
                    updated_at: timestamp,
                };
                rows.push(row);
                assert(row@ == cap_row(*checkpoint, *tx, first_output_cap(*tx)->0));
                assert(cap_views(rows@) =~= cap_views(prev).push(row@));
            }
            p = p + 1;
        }
        assert(pubs.take(pubs.len() as int) =~= pubs);
        rows
    }

    /// Appends a batch of processed rows to the pending batch.
    pub fn batch(&self, batch: &mut Vec<UpgradeCap>, values: Vec<UpgradeCap>)
        ensures
            final(batch)@ == old(batch)@ + values@,
    {
        let mut values = values;
        batch.append(&mut values);
    }
}

} // verus!
