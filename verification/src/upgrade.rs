//! The upgrade pipeline: every successful call of the framework's
//! `package::commit_upgrade` whose first argument is an upgrade cap that the
//! transaction mutated becomes an `upgrade_cap_versions` row.

use vstd::prelude::*;

use crate::checkpoint::{
    get_input, get_object, has_key, input_of, lemma_lookup_first, lookup, owner_label, owner_text, programmable,
    Argument, CallArg, Checkpoint,
    Command, ExecutedTransaction, MoveCall, Object, ObjectData, ObjectKey, ProgrammableTransaction,
    TransactionKind,
};
use crate::models::{UpgradeCapVersion, UpgradeCapVersionView};

verus! {

pub struct UpgradeCapHandler;

/// The address bytes of the Sui framework package, `0x2`.
pub open spec fn framework_package_bytes() -> Seq<u8> {
    Seq::new(32, |i: int| if i == 31 { 2u8 } else { 0u8 })
}

/// The module name "package".
pub open spec fn package_module_name() -> Seq<char> {
    seq!['p', 'a', 'c', 'k', 'a', 'g', 'e']
}

/// The function name "commit_upgrade".
pub open spec fn commit_upgrade_name() -> Seq<char> {
    seq!['c', 'o', 'm', 'm', 'i', 't', '_', 'u', 'p', 'g', 'r', 'a', 'd', 'e']
}

/// Whether a Move call is the framework's `package::commit_upgrade`.
pub open spec fn is_commit_upgrade(call: MoveCall) -> bool {
    &&& call.package@ == framework_package_bytes()
    &&& call.module@ == package_module_name()
    &&& call.function@ == commit_upgrade_name()
}

/// The views of a sequence of version rows.
pub open spec fn version_views(rows: Seq<UpgradeCapVersion>) -> Seq<UpgradeCapVersionView> {
    rows.map_values(|r: UpgradeCapVersion| r@)
}

/// The first key at or after position `i` with the given object id.
pub open spec fn find_mutated_from(keys: Seq<ObjectKey>, id: Seq<char>, i: int) -> Option<ObjectKey>
    decreases keys.len() - i,
{
    if i < 0 || i >= keys.len() {
        None
    } else if keys[i].id@ == id {
        Some(keys[i])
    } else {
        find_mutated_from(keys, id, i + 1)
    }
}

/// The first mutated object key with the given object id.
pub open spec fn find_mutated(keys: Seq<ObjectKey>, id: Seq<char>) -> Option<ObjectKey> {
    find_mutated_from(keys, id, 0)
}

/// The upgrade cap that a `commit_upgrade` call commits: its first argument
/// is an owned object input, the transaction mutated that object, and the
/// checkpoint carries the mutated object, which is an upgrade cap.
pub open spec fn upgraded_cap(
    objects: Seq<Object>,
    tx: ExecutedTransaction,
    pt: ProgrammableTransaction,
    call: MoveCall,
) -> Option<Object> {
    if call.arguments@.len() == 0 {
        None
    } else {
        match input_of(pt, call.arguments@[0]) {
            Some(CallArg::ImmOrOwnedObject(key)) => match find_mutated(tx.mutated_excluding_gas@, key.id@) {
                Some(m) => match lookup(objects, m.id@, m.version) {
                    Some(obj) => if obj.data is UpgradeCap {
                        Some(obj)
                    } else {
                        None
                    },
                    None => None,
                },
                None => None,
            },
            _ => None,
        }
    }
}

/// The version row of an upgraded cap: the cap's new package and version,
/// published by the cap's owner.
pub open spec fn version_row(cp: Checkpoint, tx: ExecutedTransaction, obj: Object) -> UpgradeCapVersionView {
    let cap = obj.data->UpgradeCap_0;
    UpgradeCapVersionView {
        object_id: cap.id@,
        package_id: cap.package@,
        version: cap.version as i64,
        seq_checkpoint: cp.sequence_number as i64,
        tx_digest: tx.digest@,
        publisher: owner_text(obj.owner),
        timestamp: cp.timestamp_ms as i64,
    }
}

/// The version rows of the commands `cmds`, in order.
pub open spec fn rows_for_commands(
    cp: Checkpoint,
    tx: ExecutedTransaction,
    pt: ProgrammableTransaction,
    cmds: Seq<Command>,
) -> Seq<UpgradeCapVersionView>
    decreases cmds.len(),
{
    if cmds.len() == 0 {
        seq![]
    } else {
        let prev = rows_for_commands(cp, tx, pt, cmds.drop_last());
        match cmds.last() {
            Command::MoveCall(call) => if is_commit_upgrade(call) {
                match upgraded_cap(cp.objects@, tx, pt, call) {
                    Some(obj) => prev.push(version_row(cp, tx, obj)),
                    None => prev,
                }
            } else {
                prev
            },
            _ => prev,
        }
    }
}

/// The version rows of one transaction: none unless it succeeded and ran a
/// programmable transaction.
pub open spec fn rows_for_transaction(cp: Checkpoint, tx: ExecutedTransaction) -> Seq<UpgradeCapVersionView> {
    if !tx.succeeded {
        seq![]
    } else {
        match programmable(tx.kind) {
            Some(pt) => rows_for_commands(cp, tx, pt, pt.commands@),
            None => seq![],
        }
    }
}

/// The version rows of the transactions `txs` of checkpoint `cp`, in order.
pub open spec fn version_rows(cp: Checkpoint, txs: Seq<ExecutedTransaction>) -> Seq<UpgradeCapVersionView>
    decreases txs.len(),
{
    if txs.len() == 0 {
        seq![]
    } else {
        version_rows(cp, txs.drop_last()) + rows_for_transaction(cp, txs.last())
    }
}

/// The facts every version row of transaction `tx` carries: the
/// checkpoint's number and time, and the transaction's digest.
pub open spec fn stamped_by(row: UpgradeCapVersionView, cp: Checkpoint, tx: ExecutedTransaction) -> bool {
    &&& row.seq_checkpoint == cp.sequence_number as i64
    &&& row.timestamp == cp.timestamp_ms as i64
    &&& row.tx_digest == tx.digest@
}

proof fn lemma_command_rows_stamped(
    cp: Checkpoint,
    tx: ExecutedTransaction,
    pt: ProgrammableTransaction,
    cmds: Seq<Command>,
)
    ensures
        forall|i: int|
            0 <= i < rows_for_commands(cp, tx, pt, cmds).len() ==> stamped_by(
                #[trigger] rows_for_commands(cp, tx, pt, cmds)[i],
                cp,
                tx,
            ),
    decreases cmds.len(),
{
    if cmds.len() > 0 {
        lemma_command_rows_stamped(cp, tx, pt, cmds.drop_last());
        let prev = rows_for_commands(cp, tx, pt, cmds.drop_last());
        let all = rows_for_commands(cp, tx, pt, cmds);
        assert forall|i: int| 0 <= i < all.len() implies stamped_by(#[trigger] all[i], cp, tx) by {
            if i < prev.len() {
                assert(all[i] == prev[i]);
            }
        }
    }
}

/// Every version row of a checkpoint carries the checkpoint's number and
/// time and the digest of one of the checkpoint's successful transactions:
/// failed upgrades are not recorded.
pub proof fn lemma_version_rows_from_successful_transactions(cp: Checkpoint, txs: Seq<ExecutedTransaction>)
    ensures
        forall|i: int|
            0 <= i < version_rows(cp, txs).len() ==> {
                let row = #[trigger] version_rows(cp, txs)[i];
                &&& row.seq_checkpoint == cp.sequence_number as i64
                &&& row.timestamp == cp.timestamp_ms as i64
                &&& exists|t: int|
                    0 <= t < txs.len() && (#[trigger] txs[t]).succeeded && txs[t].digest@ == row.tx_digest
            },
    decreases txs.len(),
{
    if txs.len() > 0 {
        let init = txs.drop_last();
        let tx = txs.last();
        lemma_version_rows_from_successful_transactions(cp, init);
        let prev = version_rows(cp, init);
        let all = version_rows(cp, txs);
        if tx.succeeded {
            if let Some(pt) = programmable(tx.kind) {
                lemma_command_rows_stamped(cp, tx, pt, pt.commands@);
            }
        }
        assert forall|i: int| 0 <= i < all.len() implies {
            let row = #[trigger] all[i];
            &&& row.seq_checkpoint == cp.sequence_number as i64
            &&& row.timestamp == cp.timestamp_ms as i64
            &&& exists|t: int|
                0 <= t < txs.len() && (#[trigger] txs[t]).succeeded && txs[t].digest@ == row.tx_digest
        } by {
            if i < prev.len() {
                assert(all[i] == prev[i]);
                let t = choose|t: int|
                    0 <= t < init.len() && (#[trigger] init[t]).succeeded && init[t].digest@ == prev[i].tx_digest;
                assert(txs[t] == init[t]);
            } else {
                let pt = programmable(tx.kind)->0;
                assert(all[i] == rows_for_commands(cp, tx, pt, pt.commands@)[i - prev.len()]);
                assert(txs[txs.len() - 1] == tx);
            }
        }
    }
}

/// The version rows of a checkpoint's transactions, split anywhere, are the
/// rows of the first part followed by those of the second: each transaction
/// adds its own rows, whatever the transactions before it did.
pub proof fn lemma_version_rows_concat(cp: Checkpoint, a: Seq<ExecutedTransaction>, b: Seq<ExecutedTransaction>)
    ensures
        version_rows(cp, a + b) == version_rows(cp, a) + version_rows(cp, b),
    decreases b.len(),
{
    if b.len() == 0 {
        assert(a + b =~= a);
        assert(version_rows(cp, a) + version_rows(cp, b) =~= version_rows(cp, a));
    } else {
        lemma_version_rows_concat(cp, a, b.drop_last());
        assert((a + b).drop_last() =~= a + b.drop_last());
        assert((a + b).last() == b.last());
        assert(version_rows(cp, a + b) =~= version_rows(cp, a) + version_rows(cp, b));
    }
}

/// The rows of a single transaction are those of its commands when it
/// succeeded and ran a programmable transaction, and there are none
/// otherwise.
pub proof fn lemma_version_rows_single(cp: Checkpoint, tx: ExecutedTransaction)
    ensures
        !tx.succeeded ==> version_rows(cp, seq![tx]) == Seq::<UpgradeCapVersionView>::empty(),
        programmable(tx.kind) is None ==> version_rows(cp, seq![tx]) == Seq::<UpgradeCapVersionView>::empty(),
        tx.succeeded && programmable(tx.kind) is Some ==> version_rows(cp, seq![tx]) == rows_for_commands(
            cp,
            tx,
            programmable(tx.kind)->0,
            programmable(tx.kind)->0.commands@,
        ),
{
    let none = Seq::<ExecutedTransaction>::empty();
    assert(version_rows(cp, none) == Seq::<UpgradeCapVersionView>::empty());
    assert(seq![tx].drop_last() =~= none);
    assert(seq![tx].last() == tx);
    assert(version_rows(cp, seq![tx]) =~= rows_for_transaction(cp, tx));
}

/// A failed transaction changes nothing: removing it from anywhere in a
/// checkpoint leaves the version rows as they were.
pub proof fn lemma_failed_transaction_ignored(
    cp: Checkpoint,
    a: Seq<ExecutedTransaction>,
    failed: ExecutedTransaction,
    b: Seq<ExecutedTransaction>,
)
    requires
        !failed.succeeded,
    ensures
        version_rows(cp, a + seq![failed] + b) == version_rows(cp, a + b),
{
    lemma_version_rows_concat(cp, a + seq![failed], b);
    lemma_version_rows_concat(cp, a, seq![failed]);
    lemma_version_rows_concat(cp, a, b);
    lemma_version_rows_single(cp, failed);
    assert(version_rows(cp, a) + version_rows(cp, seq![failed]) =~= version_rows(cp, a));
}

/// The version rows of commands, split anywhere, are the rows of the first
/// part followed by those of the second.
pub proof fn lemma_command_rows_concat(
    cp: Checkpoint,
    tx: ExecutedTransaction,
    pt: ProgrammableTransaction,
    a: Seq<Command>,
    b: Seq<Command>,
)
    ensures
        rows_for_commands(cp, tx, pt, a + b) == rows_for_commands(cp, tx, pt, a) + rows_for_commands(
            cp,
            tx,
            pt,
            b,
        ),
    decreases b.len(),
{
    if b.len() == 0 {
        assert(a + b =~= a);
        assert(rows_for_commands(cp, tx, pt, a) + rows_for_commands(cp, tx, pt, b) =~= rows_for_commands(
            cp,
            tx,
            pt,
            a,
        ));
    } else {
        lemma_command_rows_concat(cp, tx, pt, a, b.drop_last());
        assert((a + b).drop_last() =~= a + b.drop_last());
        assert((a + b).last() == b.last());
        let ab = rows_for_commands(cp, tx, pt, a + b);
        let r = rows_for_commands(cp, tx, pt, a) + rows_for_commands(cp, tx, pt, b);
        assert(ab =~= r);
    }
}

/// A command yields at most one version row, and only a call of the
/// framework's `package::commit_upgrade` that commits an upgrade cap yields
/// one: the cap's id, new package and version, its owner as publisher, the
/// transaction's digest and the checkpoint's number and time.
pub proof fn lemma_command_rows_single(cp: Checkpoint, tx: ExecutedTransaction, pt: ProgrammableTransaction, cmd: Command)
    ensures
        rows_for_commands(cp, tx, pt, seq![cmd]).len() <= 1,
        rows_for_commands(cp, tx, pt, seq![cmd]).len() == 1 ==> (cmd matches Command::MoveCall(call)
            && is_commit_upgrade(call) && (upgraded_cap(cp.objects@, tx, pt, call) matches Some(obj)
            && obj.data is UpgradeCap && rows_for_commands(cp, tx, pt, seq![cmd])[0] == (UpgradeCapVersionView {
            object_id: obj.data->UpgradeCap_0.id@,
            package_id: obj.data->UpgradeCap_0.package@,
            version: obj.data->UpgradeCap_0.version as i64,
            seq_checkpoint: cp.sequence_number as i64,
            tx_digest: tx.digest@,
            publisher: owner_text(obj.owner),
            timestamp: cp.timestamp_ms as i64,
        }))),
{
    let none = Seq::<Command>::empty();
    assert(rows_for_commands(cp, tx, pt, none) == Seq::<UpgradeCapVersionView>::empty());
    assert(seq![cmd].drop_last() =~= none);
    assert(seq![cmd].last() == cmd);
}

proof fn lemma_find_mutated_first(keys: Seq<ObjectKey>, id: Seq<char>, k: int, i: int)
    requires
        0 <= i <= k < keys.len(),
        keys[k].id@ == id,
        forall|j: int| 0 <= j < k ==> (#[trigger] keys[j]).id@ != id,
    ensures
        find_mutated_from(keys, id, i) == Some(keys[k]),
    decreases k - i,
{
    if i < k {
        lemma_find_mutated_first(keys, id, k, i + 1);
    }
}

proof fn lemma_command_row_present(
    cp: Checkpoint,
    tx: ExecutedTransaction,
    pt: ProgrammableTransaction,
    cmds: Seq<Command>,
    c: int,
    call: MoveCall,
    obj: Object,
)
    requires
        0 <= c < cmds.len(),
        cmds[c] == Command::MoveCall(call),
        is_commit_upgrade(call),
        upgraded_cap(cp.objects@, tx, pt, call) == Some(obj),
    ensures
        exists|i: int|
            0 <= i < rows_for_commands(cp, tx, pt, cmds).len() && #[trigger] rows_for_commands(cp, tx, pt, cmds)[i]
                == version_row(cp, tx, obj),
    decreases cmds.len(),
{
    let prev = rows_for_commands(cp, tx, pt, cmds.drop_last());
    let all = rows_for_commands(cp, tx, pt, cmds);
    if c == cmds.len() - 1 {
        assert(all[prev.len() as int] == version_row(cp, tx, obj));
    } else {
        lemma_command_row_present(cp, tx, pt, cmds.drop_last(), c, call, obj);
        let i = choose|i: int| 0 <= i < prev.len() && #[trigger] prev[i] == version_row(cp, tx, obj);
        assert(all[i] == prev[i]);
    }
}

proof fn lemma_transaction_rows_present(cp: Checkpoint, txs: Seq<ExecutedTransaction>, t: int, j: int)
    requires
        0 <= t < txs.len(),
        0 <= j < rows_for_transaction(cp, txs[t]).len(),
    ensures
        exists|i: int|
            0 <= i < version_rows(cp, txs).len() && #[trigger] version_rows(cp, txs)[i] == rows_for_transaction(
                cp,
                txs[t],
            )[j],
    decreases txs.len(),
{
    let prev = version_rows(cp, txs.drop_last());
    let all = version_rows(cp, txs);
    if t == txs.len() - 1 {
        assert(all[prev.len() + j] == rows_for_transaction(cp, txs[t])[j]);
    } else {
        assert(txs.drop_last()[t] == txs[t]);
        lemma_transaction_rows_present(cp, txs.drop_last(), t, j);
        let i = choose|i: int| 0 <= i < prev.len() && #[trigger] prev[i] == rows_for_transaction(cp, txs[t])[j];
        assert(all[i] == prev[i]);
    }
}

/// Every upgrade is recorded: when a successful transaction of a checkpoint,
/// at any position, runs `0x2::package::commit_upgrade` on an owned cap
/// input, the transaction mutated that cap (the first mutated key with its
/// id), and the checkpoint carries the mutated object as an upgrade cap
/// (the first object with that key), then a version row gives the cap's
/// id, new package and version, its owner as publisher, the transaction's
/// digest, and the checkpoint's number and time.
pub proof fn lemma_every_upgrade_recorded(
    cp: Checkpoint,
    txs: Seq<ExecutedTransaction>,
    t: int,
    pt: ProgrammableTransaction,
    c: int,
    call: MoveCall,
    idx: u16,
    key: ObjectKey,
    k: int,
    o: int,
)
    requires
        0 <= t < txs.len(),
        txs[t].succeeded,
        txs[t].kind == TransactionKind::ProgrammableTransaction(pt) || txs[t].kind
            == TransactionKind::ProgrammableSystemTransaction(pt),
        0 <= c < pt.commands@.len(),
        pt.commands@[c] == Command::MoveCall(call),
        is_commit_upgrade(call),
        call.arguments@.len() > 0,
        call.arguments@[0] == Argument::Input(idx),
        (idx as int) < pt.inputs@.len(),
        pt.inputs@[idx as int] == CallArg::ImmOrOwnedObject(key),
        0 <= k < txs[t].mutated_excluding_gas@.len(),
        txs[t].mutated_excluding_gas@[k].id@ == key.id@,
        forall|j: int| 0 <= j < k ==> (#[trigger] txs[t].mutated_excluding_gas@[j]).id@ != key.id@,
        0 <= o < cp.objects@.len(),
        cp.objects@[o].id@ == key.id@,
        cp.objects@[o].version == txs[t].mutated_excluding_gas@[k].version,
        forall|j: int|
            0 <= j < o ==> !((#[trigger] cp.objects@[j]).id@ == key.id@ && cp.objects@[j].version
                == txs[t].mutated_excluding_gas@[k].version),
        cp.objects@[o].data is UpgradeCap,
    ensures
        exists|i: int|
            0 <= i < version_rows(cp, txs).len() && #[trigger] version_rows(cp, txs)[i] == (UpgradeCapVersionView {
                object_id: cp.objects@[o].data->UpgradeCap_0.id@,
                package_id: cp.objects@[o].data->UpgradeCap_0.package@,
                version: cp.objects@[o].data->UpgradeCap_0.version as i64,
                seq_checkpoint: cp.sequence_number as i64,
                tx_digest: txs[t].digest@,
                publisher: owner_text(cp.objects@[o].owner),
                timestamp: cp.timestamp_ms as i64,
            }),
{
    let tx = txs[t];
    let m = tx.mutated_excluding_gas@[k];
    let obj = cp.objects@[o];
    lemma_find_mutated_first(tx.mutated_excluding_gas@, key.id@, k, 0);
    assert forall|j: int| 0 <= j < o implies !has_key(#[trigger] cp.objects@[j], m.id@, m.version) by {
        assert(!(cp.objects@[j].id@ == key.id@ && cp.objects@[j].version == m.version));
    }
    lemma_lookup_first(cp.objects@, m.id@, m.version, o);
    assert(input_of(pt, call.arguments@[0]) == Some(CallArg::ImmOrOwnedObject(key)));
    assert(upgraded_cap(cp.objects@, tx, pt, call) == Some(obj));
    assert(programmable(tx.kind) == Some(pt));
    lemma_command_row_present(cp, tx, pt, pt.commands@, c, call, obj);
    let j = choose|j: int|
        0 <= j < rows_for_commands(cp, tx, pt, pt.commands@).len() && #[trigger] rows_for_commands(
            cp,
            tx,
            pt,
            pt.commands@,
        )[j] == version_row(cp, tx, obj);
    assert(rows_for_transaction(cp, tx) == rows_for_commands(cp, tx, pt, pt.commands@));
    lemma_transaction_rows_present(cp, txs, t, j);
}

fn is_framework_package(package: &Vec<u8>) -> (res: bool)
    ensures
        res == (package@ == framework_package_bytes()),
{
    if package.len() != 32 {
        return false;
    }
    let mut i: usize = 0;
    while i < 32
        invariant
            package@.len() == 32,
            0 <= i <= 32,
            forall|j: int| 0 <= j < i ==> package@[j] == framework_package_bytes()[j],
        decreases 32 - i,
    {
        let expected: u8 = if i == 31 { 2 } else { 0 };
        if package[i] != expected {
            return false;
        }
        i = i + 1;
    }
    assert(package@ =~= framework_package_bytes());
    true
}

fn is_commit_upgrade_call(call: &MoveCall) -> (res: bool)
    ensures
        res == is_commit_upgrade(*call),
{
    let module = "package".to_owned();
    let function = "commit_upgrade".to_owned();
    proof {
        reveal_strlit("package");
        reveal_strlit("commit_upgrade");
        assert(module@ =~= package_module_name());
        assert(function@ =~= commit_upgrade_name());
    }
    is_framework_package(&call.package) && call.module == module && call.function == function
}

fn find_mutated_key<'a>(keys: &'a Vec<ObjectKey>, id: &String) -> (res: Option<&'a ObjectKey>)
    ensures
        res matches Some(k) ==> find_mutated(keys@, id@) == Some(*k),
        res is None ==> find_mutated(keys@, id@) is None,
{
    let mut i: usize = 0;
    while i < keys.len()
        invariant
            0 <= i <= keys@.len(),
            find_mutated(keys@, id@) == find_mutated_from(keys@, id@, i as int),
        decreases keys@.len() - i,
    {
        if keys[i].id == *id {
            return Some(&keys[i]);
        }
        i = i + 1;
    }
    None
}

fn get_upgraded_cap<'a>(
    cp: &'a Checkpoint,
    tx: &ExecutedTransaction,
    pt: &ProgrammableTransaction,
    call: &MoveCall,
) -> (res: Option<&'a Object>)
    ensures
        res matches Some(o) ==> upgraded_cap(cp.objects@, *tx, *pt, *call) == Some(*o),
        res is None ==> upgraded_cap(cp.objects@, *tx, *pt, *call) is None,
{
    if call.arguments.len() == 0 {
        return None;
    }
    match get_input(pt, &call.arguments[0]) {
        Some(CallArg::ImmOrOwnedObject(key)) => match find_mutated_key(&tx.mutated_excluding_gas, &key.id) {
            Some(m) => match get_object(&cp.objects, m) {
                Some(obj) => match &obj.data {
                    ObjectData::UpgradeCap(_) => Some(obj),
                    _ => None,
                },
                None => None,
            },
            None => None,
        },
        _ => None,
    }
}

fn push_command_rows(
    cp: &Checkpoint,
    tx: &ExecutedTransaction,
    pt: &ProgrammableTransaction,
    out: &mut Vec<UpgradeCapVersion>,
)
    ensures
        version_views(final(out)@) == version_views(old(out)@) + rows_for_commands(
            *cp,
            *tx,
            *pt,
            pt.commands@,
        ),
{
    let ghost start = out@;
    let mut i: usize = 0;
    while i < pt.commands.len()
        invariant
            0 <= i <= pt.commands@.len(),
            version_views(out@) == version_views(start) + rows_for_commands(
                *cp,
                *tx,
                *pt,
                pt.commands@.take(i as int),
            ),
        decreases pt.commands@.len() - i,
    {
        let ghost before = out@;
        assert(pt.commands@.take(i + 1).drop_last() =~= pt.commands@.take(i as int));
        assert(pt.commands@.take(i + 1).last() == pt.commands@[i as int]);
        if let Command::MoveCall(call) = &pt.commands[i] {
            if is_commit_upgrade_call(call) {
                if let Some(obj) = get_upgraded_cap(cp, tx, pt, call) {
                    if let ObjectData::UpgradeCap(cap) = &obj.data {
                        let row = UpgradeCapVersion {
                            object_id: cap.id.clone(),
                            package_id: cap.package.clone(),
                            version: cap.version as i64,
                            seq_checkpoint: cp.sequence_number as i64,
                            tx_digest: tx.digest.clone(),
                            publisher: owner_label(&obj.owner),
                            timestamp: cp.timestamp_ms as i64,
                        };
                        out.push(row);
                        assert(version_views(out@) =~= version_views(before).push(row@));
                    }
                }
            }
        }
        i = i + 1;
    }
    assert(pt.commands@.take(pt.commands@.len() as int) =~= pt.commands@);
}

impl UpgradeCapHandler {
    /// The version rows of a checkpoint: for each successful programmable
    /// transaction, one row per `0x2::package::commit_upgrade` call that
    /// commits an upgrade cap the transaction mutated.
    pub fn process(&self, checkpoint: &Checkpoint) -> (rows: Vec<UpgradeCapVersion>)
        ensures
            version_views(rows@) == version_rows(*checkpoint, checkpoint.transactions@),
    {
        let mut out: Vec<UpgradeCapVersion> = Vec::new();
        let mut t: usize = 0;
        let txs = &checkpoint.transactions;
        while t < txs.len()
            invariant
                0 <= t <= txs@.len(),
                txs == &checkpoint.transactions,
                version_views(out@) == version_rows(*checkpoint, txs@.take(t as int)),
            decreases txs@.len() - t,
        {
            assert(txs@.take(t + 1).drop_last() =~= txs@.take(t as int));
            assert(txs@.take(t + 1).last() == txs@[t as int]);
            let tx = &txs[t];
            if tx.succeeded {
                match &tx.kind {
                    TransactionKind::ProgrammableTransaction(pt) => {
                        push_command_rows(checkpoint, tx, pt, &mut out);
                    },
                    TransactionKind::ProgrammableSystemTransaction(pt) => {
                        push_command_rows(checkpoint, tx, pt, &mut out);
                    },
                    TransactionKind::Other => {},
                }
            }
            assert(version_views(out@) =~= version_rows(*checkpoint, txs@.take(t + 1)));
            t = t + 1;
        }
        assert(txs@.take(txs@.len() as int) =~= txs@);
        out
    }

    /// Appends a batch of processed rows to the pending batch.
    pub fn batch(&self, batch: &mut Vec<UpgradeCapVersion>, values: Vec<UpgradeCapVersion>)
        ensures
            final(batch)@ == old(batch)@ + values@,
    {
        let mut values = values;
        batch.append(&mut values);
    }
}

} // verus!
