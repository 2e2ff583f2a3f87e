//! The creation pipeline: every upgrade cap created by a successful
//! publishing transaction becomes an `upgrade_caps` row.

use vstd::prelude::*;

use crate::cap_models::{cap_row, cap_views, UpgradeCap, UpgradeCapView};
use crate::checkpoint::{
    get_object, has_key, lemma_lookup_first, lookup, owner_label, owner_text, Checkpoint, Command,
    ExecutedTransaction, Object, ObjectData, ObjectKey, ProgrammableTransaction, TransactionKind,
    UpgradeCapValue,
};
use crate::policy::UpgradeCompatibilityPolicyEnum;
use crate::publish::{lemma_publisher_listed, runs_publish, publish_command_exists, published_transactions};

verus! {

pub struct UpgradeCapHandler;

/// An upgrade cap created by a transaction, with its owner and the
/// transaction's digest.
pub struct OwnableUpgradeCap {
    upgrade_cap: UpgradeCapValue,
    owner: String,
    tx_digest: String,
}

/// Whether `c` records the upgrade cap object `obj` created by `tx`.
pub closed spec fn records_cap(c: OwnableUpgradeCap, obj: Object, tx: ExecutedTransaction) -> bool {
    let cap = obj.data->UpgradeCap_0;
    &&& c.upgrade_cap.id@ == cap.id@
    &&& c.upgrade_cap.package@ == cap.package@
    &&& c.upgrade_cap.version == cap.version
    &&& c.upgrade_cap.policy == cap.policy
    &&& c.owner@ == owner_text(obj.owner)
    &&& c.tx_digest@ == tx.digest@
}

/// The upgrade cap objects among those created under `keys`, in order.
pub open spec fn created_cap_objects(objects: Seq<Object>, keys: Seq<ObjectKey>) -> Seq<Object>
    decreases keys.len(),
{
    if keys.len() == 0 {
        seq![]
    } else {
        let prev = created_cap_objects(objects, keys.drop_last());
        match lookup(objects, keys.last().id@, keys.last().version) {
            Some(obj) => if obj.data is UpgradeCap {
                prev.push(obj)
            } else {
                prev
            },
            None => prev,
        }
    }
}

/// The rows of the upgrade caps created by `tx`, in order.
pub open spec fn rows_for_created(cp: Checkpoint, tx: ExecutedTransaction) -> Seq<UpgradeCapView> {
    created_cap_objects(cp.objects@, tx.created@).map_values(|obj: Object| cap_row(cp, tx, obj))
}

/// The rows of the publishing transactions `pubs`: the caps created by each
/// one that succeeded.
pub open spec fn created_rows(cp: Checkpoint, pubs: Seq<ExecutedTransaction>) -> Seq<UpgradeCapView>
    decreases pubs.len(),
{
    if pubs.len() == 0 {
        seq![]
    } else {
        let tx = pubs.last();
        created_rows(cp, pubs.drop_last()) + if tx.succeeded {
            rows_for_created(cp, tx)
        } else {
            seq![]
        }
    }
}

/// Every cap row of a checkpoint's publishing transactions `pubs` comes
/// from one of them that succeeded, has the `Compatible` policy, and was
/// created and last updated at the checkpoint's number and time.
pub proof fn lemma_created_rows_from_successful_publishes(cp: Checkpoint, pubs: Seq<ExecutedTransaction>)
    ensures
        forall|i: int|
            0 <= i < created_rows(cp, pubs).len() ==> {
                let row = #[trigger] created_rows(cp, pubs)[i];
                &&& row.policy == UpgradeCompatibilityPolicyEnum::Compatible
                &&& row.init_seq_checkpoint == cp.sequence_number as i64
                &&& row.created_at == cp.timestamp_ms as i64
                &&& row.updated_at == row.created_at
                &&& exists|t: int|
                    0 <= t < pubs.len() && (#[trigger] pubs[t]).succeeded && pubs[t].digest@ == row.init_tx_digest
            },
    decreases pubs.len(),
{
    if pubs.len() > 0 {
        let init = pubs.drop_last();
        let tx = pubs.last();
        lemma_created_rows_from_successful_publishes(cp, init);
        let prev = created_rows(cp, init);
        let all = created_rows(cp, pubs);
        assert forall|i: int| 0 <= i < all.len() implies {
            let row = #[trigger] all[i];
            &&& row.policy == UpgradeCompatibilityPolicyEnum::Compatible
            &&& row.init_seq_checkpoint == cp.sequence_number as i64
            &&& row.created_at == cp.timestamp_ms as i64
            &&& row.updated_at == row.created_at
            &&& exists|t: int|
                0 <= t < pubs.len() && (#[trigger] pubs[t]).succeeded && pubs[t].digest@ == row.init_tx_digest
        } by {
            if i < prev.len() {
                assert(all[i] == prev[i]);
                let t = choose|t: int|
                    0 <= t < init.len() && (#[trigger] init[t]).succeeded && init[t].digest@ == prev[i].init_tx_digest;
                assert(pubs[t] == init[t]);
            } else {
                assert(all[i] == rows_for_created(cp, tx)[i - prev.len()]);
                assert(pubs[pubs.len() - 1] == tx);
            }
        }
    }
}

/// The upgrade caps created under a list of keys, split anywhere, are the
/// caps created under the first part followed by those under the second:
/// every key is examined, wherever it stands.
pub proof fn lemma_created_cap_objects_concat(objects: Seq<Object>, a: Seq<ObjectKey>, b: Seq<ObjectKey>)
    ensures
        created_cap_objects(objects, a + b) == created_cap_objects(objects, a) + created_cap_objects(objects, b),
    decreases b.len(),
{
    if b.len() == 0 {
        assert(a + b =~= a);
        assert(created_cap_objects(objects, a) + created_cap_objects(objects, b) =~= created_cap_objects(
            objects,
            a,
        ));
    } else {
        lemma_created_cap_objects_concat(objects, a, b.drop_last());
        assert((a + b).drop_last() =~= a + b.drop_last());
        assert((a + b).last() == b.last());
        assert(created_cap_objects(objects, a + b) =~= created_cap_objects(objects, a) + created_cap_objects(
            objects,
            b,
        ));
    }
}

/// A single created key yields its object when that object is an upgrade
/// cap, and nothing otherwise.
pub proof fn lemma_created_cap_objects_single(objects: Seq<Object>, key: ObjectKey)
    ensures
        created_cap_objects(objects, seq![key]).len() <= 1,
        created_cap_objects(objects, seq![key]).len() == 1 <==> (lookup(objects, key.id@, key.version) matches Some(
            obj,
        ) && obj.data is UpgradeCap),
        created_cap_objects(objects, seq![key]).len() == 1 ==> Some(created_cap_objects(objects, seq![key])[0])
            == lookup(objects, key.id@, key.version),
{
    let none = Seq::<ObjectKey>::empty();
    assert(created_cap_objects(objects, none) == Seq::<Object>::empty());
    assert(seq![key].drop_last() =~= none);
    assert(seq![key].last() == key);
}

/// A failed publishing transaction changes nothing: removing it from
/// anywhere leaves the cap rows as they were.
pub proof fn lemma_failed_publish_ignored(
    cp: Checkpoint,
    a: Seq<ExecutedTransaction>,
    failed: ExecutedTransaction,
    b: Seq<ExecutedTransaction>,
)
    requires
        !failed.succeeded,
    ensures
        created_rows(cp, a + seq![failed] + b) == created_rows(cp, a + b),
{
    lemma_created_rows_concat(cp, a + seq![failed], b);
    lemma_created_rows_concat(cp, a, seq![failed]);
    lemma_created_rows_concat(cp, a, b);
    let none = Seq::<ExecutedTransaction>::empty();
    assert(created_rows(cp, none) == Seq::<UpgradeCapView>::empty());
    assert(seq![failed].drop_last() =~= none);
    assert(seq![failed].last() == failed);
    assert(created_rows(cp, seq![failed]) =~= Seq::<UpgradeCapView>::empty());
    assert(created_rows(cp, a) + created_rows(cp, seq![failed]) =~= created_rows(cp, a));
}

/// A transaction has as many cap rows as it created objects that are
/// upgrade caps, wherever they stand among its created objects.
pub proof fn lemma_created_cap_count(objects: Seq<Object>, keys: Seq<ObjectKey>)
    ensures
        created_cap_objects(objects, keys).len() == keys.filter(
            |k: ObjectKey| lookup(objects, k.id@, k.version) matches Some(obj) && obj.data is UpgradeCap,
        ).len(),
    decreases keys.len(),
{
    let is_cap = |k: ObjectKey| lookup(objects, k.id@, k.version) matches Some(obj) && obj.data is UpgradeCap;
    reveal(Seq::filter);
    if keys.len() > 0 {
        lemma_created_cap_count(objects, keys.drop_last());
        assert(keys.filter(is_cap).len() == keys.drop_last().filter(is_cap).len() + if is_cap(keys.last()) {
            1int
        } else {
            0int
        });
    }
}

/// The cap rows of publishing transactions, split anywhere, are the rows of
/// the first part followed by those of the second.
pub proof fn lemma_created_rows_concat(cp: Checkpoint, a: Seq<ExecutedTransaction>, b: Seq<ExecutedTransaction>)
    ensures
        created_rows(cp, a + b) == created_rows(cp, a) + created_rows(cp, b),
    decreases b.len(),
{
    if b.len() == 0 {
        assert(a + b =~= a);
        assert(created_rows(cp, a) + created_rows(cp, b) =~= created_rows(cp, a));
    } else {
        lemma_created_rows_concat(cp, a, b.drop_last());
        assert((a + b).drop_last() =~= a + b.drop_last());
        assert((a + b).last() == b.last());
        assert(created_rows(cp, a + b) =~= created_rows(cp, a) + created_rows(cp, b));
    }
}

proof fn lemma_created_cap_present(objects: Seq<Object>, keys: Seq<ObjectKey>, k: int, obj: Object)
    requires
        0 <= k < keys.len(),
        lookup(objects, keys[k].id@, keys[k].version) == Some(obj),
        obj.data is UpgradeCap,
    ensures
        exists|j: int|
            0 <= j < created_cap_objects(objects, keys).len() && #[trigger] created_cap_objects(objects, keys)[j]
                == obj,
    decreases keys.len(),
{
    let prev = created_cap_objects(objects, keys.drop_last());
    let all = created_cap_objects(objects, keys);
    if k == keys.len() - 1 {
        assert(all[prev.len() as int] == obj);
    } else {
        assert(keys.drop_last()[k] == keys[k]);
        lemma_created_cap_present(objects, keys.drop_last(), k, obj);
        let j = choose|j: int| 0 <= j < prev.len() && #[trigger] prev[j] == obj;
        assert(all[j] == prev[j]);
    }
}

proof fn lemma_publish_rows_present(cp: Checkpoint, pubs: Seq<ExecutedTransaction>, p: int, j: int)
    requires
        0 <= p < pubs.len(),
        pubs[p].succeeded,
        0 <= j < rows_for_created(cp, pubs[p]).len(),
    ensures
        exists|i: int|
            0 <= i < created_rows(cp, pubs).len() && #[trigger] created_rows(cp, pubs)[i] == rows_for_created(
                cp,
                pubs[p],
            )[j],
    decreases pubs.len(),
{
    let prev = created_rows(cp, pubs.drop_last());
    let all = created_rows(cp, pubs);
    if p == pubs.len() - 1 {
        assert(all[prev.len() + j] == rows_for_created(cp, pubs[p])[j]);
    } else {
        assert(pubs.drop_last()[p] == pubs[p]);
        lemma_publish_rows_present(cp, pubs.drop_last(), p, j);
        let i = choose|i: int| 0 <= i < prev.len() && #[trigger] prev[i] == rows_for_created(cp, pubs[p])[j];
        assert(all[i] == prev[i]);
    }
}

/// Every created cap is recorded: when a successful transaction of a
/// checkpoint publishes a package (a programmable or programmable system
/// transaction with a `Publish` command) and the checkpoint carries one of
/// its created objects, at any position among them, as an upgrade cap (the
/// first object with that key), then a cap row gives the cap's id, package
/// and version, its owner, the `Compatible` policy, the transaction's
/// digest, and the checkpoint's number and time.
pub proof fn lemma_every_created_cap_recorded(
    cp: Checkpoint,
    t: int,
    pt: ProgrammableTransaction,
    q: int,
    k: int,
    o: int,
)
    requires
        0 <= t < cp.transactions@.len(),
        cp.transactions@[t].succeeded,
        cp.transactions@[t].kind == TransactionKind::ProgrammableTransaction(pt) || cp.transactions@[t].kind
            == TransactionKind::ProgrammableSystemTransaction(pt),
        0 <= q < pt.commands@.len(),
        pt.commands@[q] is Publish,
        0 <= k < cp.transactions@[t].created@.len(),
        0 <= o < cp.objects@.len(),
        cp.objects@[o].id@ == cp.transactions@[t].created@[k].id@,
        cp.objects@[o].version == cp.transactions@[t].created@[k].version,
        forall|j: int|
            0 <= j < o ==> !((#[trigger] cp.objects@[j]).id@ == cp.transactions@[t].created@[k].id@
                && cp.objects@[j].version == cp.transactions@[t].created@[k].version),
        cp.objects@[o].data is UpgradeCap,
    ensures
        exists|i: int|
            0 <= i < created_rows(cp, published_transactions(cp.transactions@, true)).len() && #[trigger] created_rows(
                cp,
                published_transactions(cp.transactions@, true),
            )[i] == (UpgradeCapView {
                object_id: cp.objects@[o].data->UpgradeCap_0.id@,
                package_id: cp.objects@[o].data->UpgradeCap_0.package@,
                owner_address: owner_text(cp.objects@[o].owner),
                policy: UpgradeCompatibilityPolicyEnum::Compatible,
                version: cp.objects@[o].data->UpgradeCap_0.version as i64,
                init_seq_checkpoint: cp.sequence_number as i64,
                init_tx_digest: cp.transactions@[t].digest@,
                created_at: cp.timestamp_ms as i64,
                updated_at: cp.timestamp_ms as i64,
            }),
{
    let txs = cp.transactions@;
    let tx = txs[t];
    let key = tx.created@[k];
    let obj = cp.objects@[o];
    assert forall|j: int| 0 <= j < o implies !has_key(#[trigger] cp.objects@[j], key.id@, key.version) by {
        assert(!(cp.objects@[j].id@ == key.id@ && cp.objects@[j].version == key.version));
    }
    lemma_lookup_first(cp.objects@, key.id@, key.version, o);
    lemma_created_cap_present(cp.objects@, tx.created@, k, obj);
    let objs = created_cap_objects(cp.objects@, tx.created@);
    let j = choose|j: int| 0 <= j < objs.len() && #[trigger] objs[j] == obj;
    assert(rows_for_created(cp, tx)[j] == cap_row(cp, tx, obj));
    assert(pt.commands@[q] is Publish);
    assert(runs_publish(tx, true));
    lemma_publisher_listed(txs, true, t);
    let pubs = published_transactions(txs, true);
    let p = choose|p: int| 0 <= p < pubs.len() && #[trigger] pubs[p] == tx;
    lemma_publish_rows_present(cp, pubs, p, j);
}

/// The objects carry every object that `tx` created.
pub open spec fn creations_present(objects: Seq<Object>, tx: ExecutedTransaction) -> bool {
    forall|k: int|
        0 <= k < tx.created@.len() ==> (#[trigger] lookup(
            objects,
            tx.created@[k].id@,
            tx.created@[k].version,
        )) is Some
}

/// The checkpoint carries every object created by its successful
/// publishing transactions.
pub open spec fn created_objects_present(cp: Checkpoint) -> bool {
    forall|t: int|
        0 <= t < published_transactions(cp.transactions@, true).len() ==> ({
            let tx = #[trigger] published_transactions(cp.transactions@, true)[t];
            tx.succeeded ==> creations_present(cp.objects@, tx)
        })
}

/// The objects created by `tx` that are upgrade caps, with their owners.
fn get_created_upgrade_caps(tx: &ExecutedTransaction, objects: &Vec<Object>) -> (caps: Vec<OwnableUpgradeCap>)
    requires
        creations_present(objects@, *tx),
    ensures
        caps@.len() == created_cap_objects(objects@, tx.created@).len(),
        forall|k: int|
            0 <= k < caps@.len() ==> records_cap(
                #[trigger] caps@[k],
                created_cap_objects(objects@, tx.created@)[k],
                *tx,
            ),
{
    let mut caps: Vec<OwnableUpgradeCap> = Vec::new();
    let mut i: usize = 0;
    while i < tx.created.len()
        invariant
            0 <= i <= tx.created@.len(),
            creations_present(objects@, *tx),
            caps@.len() == created_cap_objects(objects@, tx.created@.take(i as int)).len(),
            forall|k: int|
                0 <= k < caps@.len() ==> records_cap(
                    #[trigger] caps@[k],
                    created_cap_objects(objects@, tx.created@.take(i as int))[k],
                    *tx,
                ),
        decreases tx.created@.len() - i,
    {
        assert(tx.created@.take(i + 1).drop_last() =~= tx.created@.take(i as int));
        assert(tx.created@.take(i + 1).last() == tx.created@[i as int]);
        let ghost found = lookup(objects@, tx.created@[i as int].id@, tx.created@[i as int].version);
        assert(found is Some);
        let obj = get_object(objects, &tx.created[i]).unwrap();
        let owner = owner_label(&obj.owner);
        if let ObjectData::UpgradeCap(cap) = &obj.data {
            caps.push(
                OwnableUpgradeCap {
                    upgrade_cap: UpgradeCapValue {
                        id: cap.id.clone(),
                        package: cap.package.clone(),
                        version: cap.version,
                        policy: cap.policy,
                    },
                    owner,
                    tx_digest: tx.digest.clone(),
                },
            );
        }
        i = i + 1;
    }
    assert(tx.created@.take(tx.created@.len() as int) =~= tx.created@);
    caps
}

fn check_creations_present(objects: &Vec<Object>, tx: &ExecutedTransaction) -> (ok: bool)
    ensures
        ok == creations_present(objects@, *tx),
{
    let mut k: usize = 0;
    while k < tx.created.len()
        invariant
            0 <= k <= tx.created@.len(),
            forall|j: int|
                0 <= j < k ==> (#[trigger] lookup(objects@, tx.created@[j].id@, tx.created@[j].version)) is Some,
        decreases tx.created@.len() - k,
    {
        if get_object(objects, &tx.created[k]).is_none() {
            return false;
        }
        k = k + 1;
    }
    true
}

/// Whether the checkpoint carries every object created by its successful
/// publishing transactions, as the creation pipeline needs.
pub fn check_created_objects_present(checkpoint: &Checkpoint) -> (ok: bool)
    ensures
        ok == created_objects_present(*checkpoint),
{
    let published = publish_command_exists(checkpoint, true);
    let ghost pubs = published_transactions(checkpoint.transactions@, true);
    let mut p: usize = 0;
    while p < published.len()
        invariant
            0 <= p <= published@.len(),
            pubs == published_transactions(checkpoint.transactions@, true),
            published@.len() == pubs.len(),
            forall|k: int|
                0 <= k < published@.len() ==> #[trigger] published@[k] < checkpoint.transactions@.len()
                    && checkpoint.transactions@[published@[k] as int] == pubs[k],
            forall|u: int|
                0 <= u < p ==> ({
                    let tx = #[trigger] pubs[u];
                    tx.succeeded ==> creations_present(checkpoint.objects@, tx)
                }),
        decreases published@.len() - p,
    {
        let tx = &checkpoint.transactions[published[p]];
        assert(*tx == pubs[p as int]);
        if tx.succeeded && !check_creations_present(&checkpoint.objects, tx) {
            return false;
        }
        p = p + 1;
    }
    true
}

impl UpgradeCapHandler {
    /// The cap rows of a checkpoint: for each transaction that publishes a
    /// package (programmable or programmable system) and succeeded, one row
    /// per upgrade cap it created, with the `Compatible` policy and the
    /// checkpoint's number and time.
    pub fn process(&self, checkpoint: &Checkpoint) -> (rows: Vec<UpgradeCap>)
        requires
            created_objects_present(*checkpoint),
        ensures
            cap_views(rows@) == created_rows(
                *checkpoint,
                published_transactions(checkpoint.transactions@, true),
            ),
    {
        let checkpoint_seq = checkpoint.sequence_number as i64;
        let timestamp = checkpoint.timestamp_ms as i64;
        let published = publish_command_exists(checkpoint, true);
        let ghost pubs = published_transactions(checkpoint.transactions@, true);
        if published.len() == 0 {
            return Vec::new();
        }
        let mut rows: Vec<UpgradeCap> = Vec::new();
        let mut p: usize = 0;
        while p < published.len()
            invariant
                0 <= p <= published@.len(),
                pubs == published_transactions(checkpoint.transactions@, true),
                published@.len() == pubs.len(),
                forall|k: int|
                    0 <= k < published@.len() ==> #[trigger] published@[k] < checkpoint.transactions@.len()
                        && checkpoint.transactions@[published@[k] as int] == pubs[k],
                created_objects_present(*checkpoint),
                checkpoint_seq == checkpoint.sequence_number as i64,
                timestamp == checkpoint.timestamp_ms as i64,
                cap_views(rows@) == created_rows(*checkpoint, pubs.take(p as int)),
            decreases published@.len() - p,
        {
            assert(pubs.take(p + 1).drop_last() =~= pubs.take(p as int));
            assert(pubs.take(p + 1).last() == pubs[p as int]);
            let tx = &checkpoint.transactions[published[p]];
            assert(*tx == pubs[p as int]);
            if tx.succeeded {
                let caps = get_created_upgrade_caps(tx, &checkpoint.objects);
                let ghost before = rows@;
                let ghost objs = created_cap_objects(checkpoint.objects@, tx.created@);
                let mut c: usize = 0;
                while c < caps.len()
                    invariant
                        0 <= c <= caps@.len(),
                        caps@.len() == objs.len(),
                        objs == created_cap_objects(checkpoint.objects@, tx.created@),
                        forall|k: int| 0 <= k < caps@.len() ==> records_cap(#[trigger] caps@[k], objs[k], *tx),
                        checkpoint_seq == checkpoint.sequence_number as i64,
                        timestamp == checkpoint.timestamp_ms as i64,
                        cap_views(rows@) == cap_views(before) + objs.take(c as int).map_values(
                            |obj: Object| cap_row(*checkpoint, *tx, obj),
                        ),
                    decreases caps@.len() - c,
                {
                    let ghost prev = rows@;
                    let cap = &caps[c];
                    assert(records_cap(caps@[c as int], objs[c as int], *tx));
                    let row = UpgradeCap {
                        object_id: cap.upgrade_cap.id.clone(),
                        package_id: cap.upgrade_cap.package.clone(),
                        owner_address: cap.owner.clone(),
                        policy: UpgradeCompatibilityPolicyEnum::Compatible,
                        version: cap.upgrade_cap.version as i64,
                        init_seq_checkpoint: checkpoint_seq,
                        init_tx_digest: cap.tx_digest.clone(),
                        created_at: timestamp,
                        updated_at: timestamp,
                    };
                    rows.push(row);
                    assert(row@ == cap_row(*checkpoint, *tx, objs[c as int]));
                    assert(objs.take(c + 1).map_values(|obj: Object| cap_row(*checkpoint, *tx, obj))
                        =~= objs.take(c as int).map_values(|obj: Object| cap_row(*checkpoint, *tx, obj)).push(row@));
                    assert(cap_views(rows@) =~= cap_views(prev).push(row@));
                    c = c + 1;
                }
                assert(objs.take(objs.len() as int) =~= objs);
            }
            assert(cap_views(rows@) =~= created_rows(*checkpoint, pubs.take(p + 1)));
            p = p + 1;
        }
        assert(pubs.take(pubs.len() as int) =~= pubs);
        rows
    }

    /// Appends a batch of processed rows to the pending batch.
    pub fn batch(&self, batch: &mut Vec<UpgradeCap>, values: Vec<UpgradeCap>)
        ensures
            final(batch)@ == old(batch)@ + values@,
    {
        let mut values = values;
        batch.append(&mut values);
    }
}

} // verus!
