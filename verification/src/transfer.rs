//! The transfer pipeline: every upgrade cap handed over by a successful
//! `TransferObjects` command becomes an `upgrade_cap_transfers` row.

use vstd::prelude::*;

use crate::checkpoint::{
    get_input, get_object, has_key, input_of, lemma_lookup_first, lookup, programmable, receiver_address, receiver_text, Argument, CallArg,
    Checkpoint, Command, ExecutedTransaction, Object, ObjectData, ObjectKey, ProgrammableTransaction,
    TransactionKind,
};
use crate::models::{UpgradeCapTransfer, UpgradeCapTransferView};

verus! {

pub struct UpgradeCapHandler;

/// The views of a sequence of transfer rows.
pub open spec fn transfer_views(rows: Seq<UpgradeCapTransfer>) -> Seq<UpgradeCapTransferView> {
    rows.map_values(|r: UpgradeCapTransfer| r@)
}

/// The upgrade cap that an argument of a transfer refers to: an owned
/// object input whose object the checkpoint carries and is an upgrade cap.
pub open spec fn transferred_cap(objects: Seq<Object>, pt: ProgrammableTransaction, arg: Argument) -> Option<Object> {
    match input_of(pt, arg) {
        Some(CallArg::ImmOrOwnedObject(key)) => match lookup(objects, key.id@, key.version) {
            Some(obj) => if obj.data is UpgradeCap {
                Some(obj)
            } else {
                None
            },
            None => None,
        },
        _ => None,
    }
}

/// The row of one cap transferred to `receiver` by transaction `tx`.
pub open spec fn transfer_row(cp: Checkpoint, tx: ExecutedTransaction, obj: Object, receiver: Seq<char>) -> UpgradeCapTransferView {
    UpgradeCapTransferView {
        object_id: obj.id@,
        old_owner_address: obj.single_owner->0@,
        new_owner_address: receiver,
        seq_checkpoint: cp.sequence_number as i64,
        tx_digest: tx.digest@,
        timestamp: cp.timestamp_ms as i64,
    }
}

/// The rows of the caps among the transferred `args`, in order.
pub open spec fn rows_for_objects(
    cp: Checkpoint,
    tx: ExecutedTransaction,
    pt: ProgrammableTransaction,
    args: Seq<Argument>,
    receiver: Seq<char>,
) -> Seq<UpgradeCapTransferView>
    decreases args.len(),
{
    if args.len() == 0 {
        seq![]
    } else {
        let prev = rows_for_objects(cp, tx, pt, args.drop_last(), receiver);
        match transferred_cap(cp.objects@, pt, args.last()) {
            Some(obj) => prev.push(transfer_row(cp, tx, obj, receiver)),
            None => prev,
        }
    }
}

/// The rows of the `TransferObjects` commands among `cmds`, in order.
pub open spec fn rows_for_commands(
    cp: Checkpoint,
    tx: ExecutedTransaction,
    pt: ProgrammableTransaction,
    cmds: Seq<Command>,
) -> Seq<UpgradeCapTransferView>
    decreases cmds.len(),
{
    if cmds.len() == 0 {
        seq![]
    } else {
        rows_for_commands(cp, tx, pt, cmds.drop_last()) + match cmds.last() {
            Command::TransferObjects(objects, receiver) => rows_for_objects(
                cp,
                tx,
                pt,
                objects@,
                receiver_text(pt, receiver),
            ),
            _ => seq![],
        }
    }
}

/// The rows of one transaction: none unless it succeeded and ran a
/// programmable transaction.
pub open spec fn rows_for_transaction(cp: Checkpoint, tx: ExecutedTransaction) -> Seq<UpgradeCapTransferView> {
    if !tx.succeeded {
        seq![]
    } else {
        match programmable(tx.kind) {
            Some(pt) => rows_for_commands(cp, tx, pt, pt.commands@),
            None => seq![],
        }
    }
}

/// The rows of the transactions `txs` of checkpoint `cp`, in order.
pub open spec fn transfer_rows(cp: Checkpoint, txs: Seq<ExecutedTransaction>) -> Seq<UpgradeCapTransferView>
    decreases txs.len(),
{
    if txs.len() == 0 {
        seq![]
    } else {
        transfer_rows(cp, txs.drop_last()) + rows_for_transaction(cp, txs.last())
    }
}

/// Every cap among `args` that is transferred has a single owner.
pub open spec fn owners_known_in_args(objects: Seq<Object>, pt: ProgrammableTransaction, args: Seq<Argument>) -> bool {
    forall|k: int|
        0 <= k < args.len() ==> (#[trigger] transferred_cap(objects, pt, args[k]) matches Some(obj)
            ==> obj.single_owner is Some)
}

/// Every cap transferred by the commands of `pt` has a single owner.
pub open spec fn owners_known_in_commands(objects: Seq<Object>, pt: ProgrammableTransaction) -> bool {
    forall|c: int|
        0 <= c < pt.commands@.len() ==> (#[trigger] pt.commands@[c] matches Command::TransferObjects(
            args,
            _,
        ) ==> owners_known_in_args(objects, pt, args@))
}

/// Every upgrade cap that a successful transaction of the checkpoint
/// transfers has a single owner: the transfer records that owner as the one
/// the cap leaves.
pub open spec fn transferred_caps_have_owners(cp: Checkpoint) -> bool {
    forall|t: int|
        0 <= t < cp.transactions@.len() ==> ({
            let tx = #[trigger] cp.transactions@[t];
            tx.succeeded ==> (programmable(tx.kind) matches Some(pt) ==> owners_known_in_commands(
                cp.objects@,
                pt,
            ))
        })
}

/// The facts every transfer row of transaction `tx` carries: the
/// checkpoint's number and time, and the transaction's digest.
pub open spec fn stamped_by(row: UpgradeCapTransferView, cp: Checkpoint, tx: ExecutedTransaction) -> bool {
    &&& row.seq_checkpoint == cp.sequence_number as i64
    &&& row.timestamp == cp.timestamp_ms as i64
    &&& row.tx_digest == tx.digest@
}

proof fn lemma_object_rows_stamped(
    cp: Checkpoint,
    tx: ExecutedTransaction,
    pt: ProgrammableTransaction,
    args: Seq<Argument>,
    receiver: Seq<char>,
)
    ensures
        forall|i: int|
            0 <= i < rows_for_objects(cp, tx, pt, args, receiver).len() ==> {
                let row = #[trigger] rows_for_objects(cp, tx, pt, args, receiver)[i];
                stamped_by(row, cp, tx) && row.new_owner_address == receiver
            },
    decreases args.len(),
{
    if args.len() > 0 {
        lemma_object_rows_stamped(cp, tx, pt, args.drop_last(), receiver);
        let prev = rows_for_objects(cp, tx, pt, args.drop_last(), receiver);
        let all = rows_for_objects(cp, tx, pt, args, receiver);
        assert forall|i: int| 0 <= i < all.len() implies stamped_by(#[trigger] all[i], cp, tx)
            && all[i].new_owner_address == receiver by {
            if i < prev.len() {
                assert(all[i] == prev[i]);
            }
        }
    }
}

proof fn lemma_command_rows_stamped(
    cp: Checkpoint,
    tx: ExecutedTransaction,
    pt: ProgrammableTransaction,
    cmds: Seq<Command>,
)
    ensures
        forall|i: int|
            0 <= i < rows_for_commands(cp, tx, pt, cmds).len() ==> stamped_by(
                #[trigger] rows_for_commands(cp, tx, pt, cmds)[i],
                cp,
                tx,
            ),
    decreases cmds.len(),
{
    if cmds.len() > 0 {
        lemma_command_rows_stamped(cp, tx, pt, cmds.drop_last());
        let prev = rows_for_commands(cp, tx, pt, cmds.drop_last());
        if let Command::TransferObjects(objects, receiver) = cmds.last() {
            lemma_object_rows_stamped(cp, tx, pt, objects@, receiver_text(pt, receiver));
        }
        let all = rows_for_commands(cp, tx, pt, cmds);
        assert forall|i: int| 0 <= i < all.len() implies stamped_by(#[trigger] all[i], cp, tx) by {
            if i >= prev.len() {
                if let Command::TransferObjects(objects, receiver) = cmds.last() {
                    let rest = rows_for_objects(cp, tx, pt, objects@, receiver_text(pt, receiver));
                    assert(all[i] == rest[i - prev.len()]);
                }
            }
        }
    }
}

/// Every transfer row of a checkpoint carries the checkpoint's number and
/// time and the digest of one of the checkpoint's successful transactions:
/// failed transactions transfer nothing.
pub proof fn lemma_transfer_rows_from_successful_transactions(cp: Checkpoint, txs: Seq<ExecutedTransaction>)
    ensures
        forall|i: int|
            0 <= i < transfer_rows(cp, txs).len() ==> {
                let row = #[trigger] transfer_rows(cp, txs)[i];
                &&& row.seq_checkpoint == cp.sequence_number as i64
                &&& row.timestamp == cp.timestamp_ms as i64
                &&& exists|t: int|
                    0 <= t < txs.len() && (#[trigger] txs[t]).succeeded && txs[t].digest@ == row.tx_digest
            },
    decreases txs.len(),
{
    if txs.len() > 0 {
        let init = txs.drop_last();
        let tx = txs.last();
        lemma_transfer_rows_from_successful_transactions(cp, init);
        let prev = transfer_rows(cp, init);
        let all = transfer_rows(cp, txs);
        if tx.succeeded {
            if let Some(pt) = programmable(tx.kind) {
                lemma_command_rows_stamped(cp, tx, pt, pt.commands@);
            }
        }
        assert forall|i: int| 0 <= i < all.len() implies {
            let row = #[trigger] all[i];
            &&& row.seq_checkpoint == cp.sequence_number as i64
            &&& row.timestamp == cp.timestamp_ms as i64
            &&& exists|t: int|
                0 <= t < txs.len() && (#[trigger] txs[t]).succeeded && txs[t].digest@ == row.tx_digest
        } by {
            if i < prev.len() {
                assert(all[i] == prev[i]);
                let t = choose|t: int|
                    0 <= t < init.len() && (#[trigger] init[t]).succeeded && init[t].digest@ == prev[i].tx_digest;
                assert(txs[t] == init[t]);
            } else {
                let pt = programmable(tx.kind)->0;
                assert(all[i] == rows_for_commands(cp, tx, pt, pt.commands@)[i - prev.len()]);
                assert(txs[txs.len() - 1] == tx);
            }
        }
    }
}

/// The transfer rows of a checkpoint's transactions, split anywhere, are
/// the rows of the first part followed by those of the second: each
/// transaction adds its own rows, whatever the transactions before it did.
pub proof fn lemma_transfer_rows_concat(cp: Checkpoint, a: Seq<ExecutedTransaction>, b: Seq<ExecutedTransaction>)
    ensures
        transfer_rows(cp, a + b) == transfer_rows(cp, a) + transfer_rows(cp, b),
    decreases b.len(),
{
    if b.len() == 0 {
        assert(a + b =~= a);
        assert(transfer_rows(cp, a) + transfer_rows(cp, b) =~= transfer_rows(cp, a));
    } else {
        lemma_transfer_rows_concat(cp, a, b.drop_last());
        assert((a + b).drop_last() =~= a + b.drop_last());
        assert((a + b).last() == b.last());
        assert(transfer_rows(cp, a + b) =~= transfer_rows(cp, a) + transfer_rows(cp, b));
    }
}

/// The rows of a single transaction are those of its commands when it
/// succeeded and ran a programmable transaction, and there are none
/// otherwise.
pub proof fn lemma_transfer_rows_single(cp: Checkpoint, tx: ExecutedTransaction)
    ensures
        !tx.succeeded ==> transfer_rows(cp, seq![tx]) == Seq::<UpgradeCapTransferView>::empty(),
        programmable(tx.kind) is None ==> transfer_rows(cp, seq![tx]) == Seq::<UpgradeCapTransferView>::empty(),
        tx.succeeded && programmable(tx.kind) is Some ==> transfer_rows(cp, seq![tx]) == rows_for_commands(
            cp,
            tx,
            programmable(tx.kind)->0,
            programmable(tx.kind)->0.commands@,
        ),
{
    let none = Seq::<ExecutedTransaction>::empty();
    assert(transfer_rows(cp, none) == Seq::<UpgradeCapTransferView>::empty());
    assert(seq![tx].drop_last() =~= none);
    assert(seq![tx].last() == tx);
    assert(transfer_rows(cp, seq![tx]) =~= rows_for_transaction(cp, tx));
}

/// A failed transaction changes nothing: removing it from anywhere in a
/// checkpoint leaves the transfer rows as they were.
pub proof fn lemma_failed_transfer_ignored(
    cp: Checkpoint,
    a: Seq<ExecutedTransaction>,
    failed: ExecutedTransaction,
    b: Seq<ExecutedTransaction>,
)
    requires
        !failed.succeeded,
    ensures
        transfer_rows(cp, a + seq![failed] + b) == transfer_rows(cp, a + b),
{
    lemma_transfer_rows_concat(cp, a + seq![failed], b);
    lemma_transfer_rows_concat(cp, a, seq![failed]);
    lemma_transfer_rows_concat(cp, a, b);
    lemma_transfer_rows_single(cp, failed);
    assert(transfer_rows(cp, a) + transfer_rows(cp, seq![failed]) =~= transfer_rows(cp, a));
}

/// The transfer rows of commands, split anywhere, are the rows of the first
/// part followed by those of the second; a command other than
/// `TransferObjects` yields none.
pub proof fn lemma_transfer_command_rows_concat(
    cp: Checkpoint,
    tx: ExecutedTransaction,
    pt: ProgrammableTransaction,
    a: Seq<Command>,
    b: Seq<Command>,
)
    ensures
        rows_for_commands(cp, tx, pt, a + b) == rows_for_commands(cp, tx, pt, a) + rows_for_commands(
            cp,
            tx,
            pt,
            b,
        ),
        forall|cmd: Command|
            !(cmd is TransferObjects) ==> #[trigger] rows_for_commands(cp, tx, pt, seq![cmd]).len() == 0,
    decreases b.len(),
{
    assert forall|cmd: Command| !(cmd is TransferObjects) implies #[trigger] rows_for_commands(
        cp,
        tx,
        pt,
        seq![cmd],
    ).len() == 0 by {
        let none = Seq::<Command>::empty();
        assert(rows_for_commands(cp, tx, pt, none) == Seq::<UpgradeCapTransferView>::empty());
        assert(seq![cmd].drop_last() =~= none);
        assert(seq![cmd].last() == cmd);
    }
    if b.len() == 0 {
        assert(a + b =~= a);
        assert(rows_for_commands(cp, tx, pt, a) + rows_for_commands(cp, tx, pt, b) =~= rows_for_commands(
            cp,
            tx,
            pt,
            a,
        ));
    } else {
        lemma_transfer_command_rows_concat(cp, tx, pt, a, b.drop_last());
        assert((a + b).drop_last() =~= a + b.drop_last());
        assert((a + b).last() == b.last());
        let ab = rows_for_commands(cp, tx, pt, a + b);
        let r = rows_for_commands(cp, tx, pt, a) + rows_for_commands(cp, tx, pt, b);
        assert(ab =~= r);
    }
}

/// The rows of one `TransferObjects` command are those of its transferred
/// objects, in order, all going to the command's receiver.
pub proof fn lemma_transfer_command_rows_single(
    cp: Checkpoint,
    tx: ExecutedTransaction,
    pt: ProgrammableTransaction,
    args: Vec<Argument>,
    receiver: Argument,
)
    ensures
        rows_for_commands(cp, tx, pt, seq![Command::TransferObjects(args, receiver)]) == rows_for_objects(
            cp,
            tx,
            pt,
            args@,
            receiver_text(pt, receiver),
        ),
{
    let cmd = Command::TransferObjects(args, receiver);
    let none = Seq::<Command>::empty();
    assert(rows_for_commands(cp, tx, pt, none) == Seq::<UpgradeCapTransferView>::empty());
    assert(seq![cmd].drop_last() =~= none);
    assert(seq![cmd].last() == cmd);
    assert(rows_for_commands(cp, tx, pt, seq![cmd]) =~= rows_for_objects(
        cp,
        tx,
        pt,
        args@,
        receiver_text(pt, receiver),
    ));
}

/// The rows of transferred objects, split anywhere, are the rows of the
/// first part followed by those of the second.
pub proof fn lemma_object_rows_concat(
    cp: Checkpoint,
    tx: ExecutedTransaction,
    pt: ProgrammableTransaction,
    a: Seq<Argument>,
    b: Seq<Argument>,
    receiver: Seq<char>,
)
    ensures
        rows_for_objects(cp, tx, pt, a + b, receiver) == rows_for_objects(cp, tx, pt, a, receiver)
            + rows_for_objects(cp, tx, pt, b, receiver),
    decreases b.len(),
{
    if b.len() == 0 {
        assert(a + b =~= a);
        assert(rows_for_objects(cp, tx, pt, a, receiver) + rows_for_objects(cp, tx, pt, b, receiver)
            =~= rows_for_objects(cp, tx, pt, a, receiver));
    } else {
        lemma_object_rows_concat(cp, tx, pt, a, b.drop_last(), receiver);
        assert((a + b).drop_last() =~= a + b.drop_last());
        assert((a + b).last() == b.last());
        assert(rows_for_objects(cp, tx, pt, a + b, receiver) =~= rows_for_objects(cp, tx, pt, a, receiver)
            + rows_for_objects(cp, tx, pt, b, receiver));
    }
}

/// A transferred object yields at most one row, and only an upgrade cap
/// does: the cap's id, from its single owner to the receiver, with the
/// transaction's digest and the checkpoint's number and time.
pub proof fn lemma_object_rows_single(
    cp: Checkpoint,
    tx: ExecutedTransaction,
    pt: ProgrammableTransaction,
    arg: Argument,
    receiver: Seq<char>,
)
    ensures
        rows_for_objects(cp, tx, pt, seq![arg], receiver).len() <= 1,
        rows_for_objects(cp, tx, pt, seq![arg], receiver).len() == 1 ==> (transferred_cap(
            cp.objects@,
            pt,
            arg,
        ) matches Some(obj) && obj.data is UpgradeCap && rows_for_objects(cp, tx, pt, seq![arg], receiver)[0] == (
        UpgradeCapTransferView {
            object_id: obj.id@,
            old_owner_address: obj.single_owner->0@,
            new_owner_address: receiver,
            seq_checkpoint: cp.sequence_number as i64,
            tx_digest: tx.digest@,
            timestamp: cp.timestamp_ms as i64,
        })),
{
    let none = Seq::<Argument>::empty();
    assert(rows_for_objects(cp, tx, pt, none, receiver) == Seq::<UpgradeCapTransferView>::empty());
    assert(seq![arg].drop_last() =~= none);
    assert(seq![arg].last() == arg);
}

proof fn lemma_object_row_present(
    cp: Checkpoint,
    tx: ExecutedTransaction,
    pt: ProgrammableTransaction,
    args: Seq<Argument>,
    receiver: Seq<char>,
    a: int,
    obj: Object,
)
    requires
        0 <= a < args.len(),
        transferred_cap(cp.objects@, pt, args[a]) == Some(obj),
    ensures
        exists|i: int|
            0 <= i < rows_for_objects(cp, tx, pt, args, receiver).len() && #[trigger] rows_for_objects(
                cp,
                tx,
                pt,
                args,
                receiver,
            )[i] == transfer_row(cp, tx, obj, receiver),
    decreases args.len(),
{
    let prev = rows_for_objects(cp, tx, pt, args.drop_last(), receiver);
    let all = rows_for_objects(cp, tx, pt, args, receiver);
    if a == args.len() - 1 {
        assert(all[prev.len() as int] == transfer_row(cp, tx, obj, receiver));
    } else {
        lemma_object_row_present(cp, tx, pt, args.drop_last(), receiver, a, obj);
        let i = choose|i: int| 0 <= i < prev.len() && #[trigger] prev[i] == transfer_row(cp, tx, obj, receiver);
        assert(all[i] == prev[i]);
    }
}

proof fn lemma_command_row_present(
    cp: Checkpoint,
    tx: ExecutedTransaction,
    pt: ProgrammableTransaction,
    cmds: Seq<Command>,
    c: int,
    args: Vec<Argument>,
    receiver: Argument,
    row: UpgradeCapTransferView,
)
    requires
        0 <= c < cmds.len(),
        cmds[c] == Command::TransferObjects(args, receiver),
        exists|i: int|
            0 <= i < rows_for_objects(cp, tx, pt, args@, receiver_text(pt, receiver)).len()
                && #[trigger] rows_for_objects(cp, tx, pt, args@, receiver_text(pt, receiver))[i] == row,
    ensures
        exists|i: int|
            0 <= i < rows_for_commands(cp, tx, pt, cmds).len() && #[trigger] rows_for_commands(cp, tx, pt, cmds)[i]
                == row,
    decreases cmds.len(),
{
    let prev = rows_for_commands(cp, tx, pt, cmds.drop_last());
    let all = rows_for_commands(cp, tx, pt, cmds);
    if c == cmds.len() - 1 {
        let rest = rows_for_objects(cp, tx, pt, args@, receiver_text(pt, receiver));
        let i = choose|i: int| 0 <= i < rest.len() && #[trigger] rest[i] == row;
        assert(all[prev.len() + i] == rest[i]);
    } else {
        assert(cmds.drop_last()[c] == cmds[c]);
        lemma_command_row_present(cp, tx, pt, cmds.drop_last(), c, args, receiver, row);
        let i = choose|i: int| 0 <= i < prev.len() && #[trigger] prev[i] == row;
        assert(all[i] == prev[i]);
    }
}

proof fn lemma_transaction_rows_present(cp: Checkpoint, txs: Seq<ExecutedTransaction>, t: int, j: int)
    requires
        0 <= t < txs.len(),
        0 <= j < rows_for_transaction(cp, txs[t]).len(),
    ensures
        exists|i: int|
            0 <= i < transfer_rows(cp, txs).len() && #[trigger] transfer_rows(cp, txs)[i] == rows_for_transaction(
                cp,
                txs[t],
            )[j],
    decreases txs.len(),
{
    let prev = transfer_rows(cp, txs.drop_last());
    let all = transfer_rows(cp, txs);
    if t == txs.len() - 1 {
        assert(all[prev.len() + j] == rows_for_transaction(cp, txs[t])[j]);
    } else {
        assert(txs.drop_last()[t] == txs[t]);
        lemma_transaction_rows_present(cp, txs.drop_last(), t, j);
        let i = choose|i: int| 0 <= i < prev.len() && #[trigger] prev[i] == rows_for_transaction(cp, txs[t])[j];
        assert(all[i] == prev[i]);
    }
}

/// Every transfer of a cap is recorded: when a successful transaction of a
/// checkpoint, at any position, hands an owned object input to a
/// `TransferObjects` command, and the checkpoint carries that object as an
/// upgrade cap (the first object with the input's key) whose single owner
/// is `owner`, then a transfer row takes the cap's id from `owner` to the
/// command's receiver, with the transaction's digest and the checkpoint's
/// number and time.
pub proof fn lemma_every_transfer_recorded(
    cp: Checkpoint,
    txs: Seq<ExecutedTransaction>,
    t: int,
    pt: ProgrammableTransaction,
    c: int,
    args: Vec<Argument>,
    receiver: Argument,
    a: int,
    idx: u16,
    key: ObjectKey,
    o: int,
    owner: String,
)
    requires
        0 <= t < txs.len(),
        txs[t].succeeded,
        txs[t].kind == TransactionKind::ProgrammableTransaction(pt) || txs[t].kind
            == TransactionKind::ProgrammableSystemTransaction(pt),
        0 <= c < pt.commands@.len(),
        pt.commands@[c] == Command::TransferObjects(args, receiver),
        0 <= a < args@.len(),
        args@[a] == Argument::Input(idx),
        (idx as int) < pt.inputs@.len(),
        pt.inputs@[idx as int] == CallArg::ImmOrOwnedObject(key),
        0 <= o < cp.objects@.len(),
        cp.objects@[o].id@ == key.id@,
        cp.objects@[o].version == key.version,
        forall|j: int|
            0 <= j < o ==> !((#[trigger] cp.objects@[j]).id@ == key.id@ && cp.objects@[j].version == key.version),
        cp.objects@[o].data is UpgradeCap,
        cp.objects@[o].single_owner == Some(owner),
    ensures
        exists|i: int|
            0 <= i < transfer_rows(cp, txs).len() && #[trigger] transfer_rows(cp, txs)[i] == (UpgradeCapTransferView {
                object_id: key.id@,
                old_owner_address: owner@,
                new_owner_address: receiver_text(pt, receiver),
                seq_checkpoint: cp.sequence_number as i64,
                tx_digest: txs[t].digest@,
                timestamp: cp.timestamp_ms as i64,
            }),
{
    let tx = txs[t];
    let obj = cp.objects@[o];
    let recv = receiver_text(pt, receiver);
    assert forall|j: int| 0 <= j < o implies !has_key(#[trigger] cp.objects@[j], key.id@, key.version) by {
        assert(!(cp.objects@[j].id@ == key.id@ && cp.objects@[j].version == key.version));
    }
    lemma_lookup_first(cp.objects@, key.id@, key.version, o);
    assert(transferred_cap(cp.objects@, pt, args@[a]) == Some(obj));
    lemma_object_row_present(cp, tx, pt, args@, recv, a, obj);
    let row = transfer_row(cp, tx, obj, recv);
    let w = choose|i: int|
        0 <= i < rows_for_objects(cp, tx, pt, args@, recv).len() && #[trigger] rows_for_objects(
            cp,
            tx,
            pt,
            args@,
            recv,
        )[i] == row;
    assert(rows_for_objects(cp, tx, pt, args@, recv)[w] == row);
    lemma_command_row_present(cp, tx, pt, pt.commands@, c, args, receiver, row);
    assert(programmable(tx.kind) == Some(pt));
    let j = choose|j: int|
        0 <= j < rows_for_commands(cp, tx, pt, pt.commands@).len() && #[trigger] rows_for_commands(
            cp,
            tx,
            pt,
            pt.commands@,
        )[j] == row;
    assert(rows_for_transaction(cp, tx) == rows_for_commands(cp, tx, pt, pt.commands@));
    lemma_transaction_rows_present(cp, txs, t, j);
}

fn push_object_rows(
    cp: &Checkpoint,
    tx: &ExecutedTransaction,
    pt: &ProgrammableTransaction,
    args: &Vec<Argument>,
    receiver: &String,
    out: &mut Vec<UpgradeCapTransfer>,
)
    requires
        owners_known_in_args(cp.objects@, *pt, args@),
    ensures
        transfer_views(final(out)@) == transfer_views(old(out)@) + rows_for_objects(
            *cp,
            *tx,
            *pt,
            args@,
            receiver@,
        ),
{
    let ghost start = out@;
    let mut i: usize = 0;
    while i < args.len()
        invariant
            0 <= i <= args@.len(),
            owners_known_in_args(cp.objects@, *pt, args@),
            transfer_views(out@) == transfer_views(start) + rows_for_objects(
                *cp,
                *tx,
                *pt,
                args@.take(i as int),
                receiver@,
            ),
        decreases args@.len() - i,
    {
        let ghost before = out@;
        assert(args@.take(i + 1).drop_last() =~= args@.take(i as int));
        assert(args@.take(i + 1).last() == args@[i as int]);
        let ghost found = transferred_cap(cp.objects@, *pt, args@[i as int]);
        if let Some(CallArg::ImmOrOwnedObject(key)) = get_input(pt, &args[i]) {
            if let Some(obj) = get_object(&cp.objects, key) {
                if let ObjectData::UpgradeCap(_) = &obj.data {
                    assert(found == Some(*obj));
                    let row = UpgradeCapTransfer {
                        object_id: obj.id.clone(),
                        old_owner_address: obj.single_owner.as_ref().unwrap().clone(),
                        new_owner_address: receiver.clone(),
                        seq_checkpoint: cp.sequence_number as i64,
                        tx_digest: tx.digest.clone(),
                        timestamp: cp.timestamp_ms as i64,
                    };
                    out.push(row);
                    assert(transfer_views(out@) =~= transfer_views(before).push(row@));
                }
            }
        }
        i = i + 1;
    }
    assert(args@.take(args@.len() as int) =~= args@);
}

fn push_command_rows(
    cp: &Checkpoint,
    tx: &ExecutedTransaction,
    pt: &ProgrammableTransaction,
    out: &mut Vec<UpgradeCapTransfer>,
)
    requires
        owners_known_in_commands(cp.objects@, *pt),
    ensures
        transfer_views(final(out)@) == transfer_views(old(out)@) + rows_for_commands(
            *cp,
            *tx,
            *pt,
            pt.commands@,
        ),
{
    let ghost start = out@;
    let mut i: usize = 0;
    while i < pt.commands.len()
        invariant
            0 <= i <= pt.commands@.len(),
            owners_known_in_commands(cp.objects@, *pt),
            transfer_views(out@) == transfer_views(start) + rows_for_commands(
                *cp,
                *tx,
                *pt,
                pt.commands@.take(i as int),
            ),
        decreases pt.commands@.len() - i,
    {
        assert(pt.commands@.take(i + 1).drop_last() =~= pt.commands@.take(i as int));
        assert(pt.commands@.take(i + 1).last() == pt.commands@[i as int]);
        match &pt.commands[i] {
            Command::TransferObjects(objects, receiver) => {
                let receiver_address = receiver_address(pt, receiver);
                push_object_rows(cp, tx, pt, objects, &receiver_address, out);
            },
            _ => {},
        }
        assert(transfer_views(out@) =~= transfer_views(start) + rows_for_commands(
            *cp,
            *tx,
            *pt,
            pt.commands@.take(i + 1),
        ));
        i = i + 1;
    }
    assert(pt.commands@.take(pt.commands@.len() as int) =~= pt.commands@);
}

fn args_have_owners(objects: &Vec<Object>, pt: &ProgrammableTransaction, args: &Vec<Argument>) -> (ok: bool)
    ensures
        ok == owners_known_in_args(objects@, *pt, args@),
{
    let mut i: usize = 0;
    while i < args.len()
        invariant
            0 <= i <= args@.len(),
            forall|k: int|
                0 <= k < i ==> (#[trigger] transferred_cap(objects@, *pt, args@[k]) matches Some(obj)
                    ==> obj.single_owner is Some),
        decreases args@.len() - i,
    {
        let ghost found = transferred_cap(objects@, *pt, args@[i as int]);
        if let Some(CallArg::ImmOrOwnedObject(key)) = get_input(pt, &args[i]) {
            if let Some(obj) = get_object(objects, key) {
                if let ObjectData::UpgradeCap(_) = &obj.data {
                    assert(found == Some(*obj));
                    if obj.single_owner.is_none() {
                        return false;
                    }
                }
            }
        }
        i = i + 1;
    }
    true
}

fn commands_have_owners(objects: &Vec<Object>, pt: &ProgrammableTransaction) -> (ok: bool)
    ensures
        ok == owners_known_in_commands(objects@, *pt),
{
    let mut i: usize = 0;
    while i < pt.commands.len()
        invariant
            0 <= i <= pt.commands@.len(),
            forall|c: int|
                0 <= c < i ==> (#[trigger] pt.commands@[c] matches Command::TransferObjects(args, _)
                    ==> owners_known_in_args(objects@, *pt, args@)),
        decreases pt.commands@.len() - i,
    {
        if let Command::TransferObjects(args, _) = &pt.commands[i] {
            if !args_have_owners(objects, pt, args) {
                return false;
            }
        }
        i = i + 1;
    }
    true
}

/// Whether every upgrade cap that a successful transaction of the
/// checkpoint transfers has a single owner, as the transfer pipeline needs.
pub fn check_transferred_caps_have_owners(checkpoint: &Checkpoint) -> (ok: bool)
    ensures
        ok == transferred_caps_have_owners(*checkpoint),
{
    let txs = &checkpoint.transactions;
    let mut t: usize = 0;
    while t < txs.len()
        invariant
            0 <= t <= txs@.len(),
            txs == &checkpoint.transactions,
            forall|u: int|
                0 <= u < t ==> ({
                    let tx = #[trigger] txs@[u];
                    tx.succeeded ==> (programmable(tx.kind) matches Some(pt) ==> owners_known_in_commands(
                        checkpoint.objects@,
                        pt,
                    ))
                }),
        decreases txs@.len() - t,
    {
        let tx = &txs[t];
        if tx.succeeded {
            let ok = match &tx.kind {
                TransactionKind::ProgrammableTransaction(pt) => commands_have_owners(&checkpoint.objects, pt),
                TransactionKind::ProgrammableSystemTransaction(pt) => commands_have_owners(
                    &checkpoint.objects,
                    pt,
                ),
                TransactionKind::Other => true,
            };
            if !ok {
                return false;
            }
        }
        t = t + 1;
    }
    true
}

impl UpgradeCapHandler {
    /// The transfer rows of a checkpoint: for each successful programmable
    /// transaction, for each of its `TransferObjects` commands, one row per
    /// transferred upgrade cap, from the cap's owner to the receiver.
    pub fn process(&self, checkpoint: &Checkpoint) -> (rows: Vec<UpgradeCapTransfer>)
        requires
            transferred_caps_have_owners(*checkpoint),
        ensures
            transfer_views(rows@) == transfer_rows(*checkpoint, checkpoint.transactions@),
    {
        let mut out: Vec<UpgradeCapTransfer> = Vec::new();
        let mut t: usize = 0;
        let txs = &checkpoint.transactions;
        while t < txs.len()
            invariant
                0 <= t <= txs@.len(),
                txs == &checkpoint.transactions,
                transferred_caps_have_owners(*checkpoint),
                transfer_views(out@) == transfer_rows(*checkpoint, txs@.take(t as int)),
            decreases txs@.len() - t,
        {
            assert(txs@.take(t + 1).drop_last() =~= txs@.take(t as int));
            assert(txs@.take(t + 1).last() == txs@[t as int]);
            let tx = &txs[t];
            if tx.succeeded {
                match &tx.kind {
                    TransactionKind::ProgrammableTransaction(pt) => {
                        push_command_rows(checkpoint, tx, pt, &mut out);
                    },
                    TransactionKind::ProgrammableSystemTransaction(pt) => {
                        push_command_rows(checkpoint, tx, pt, &mut out);
                    },
                    TransactionKind::Other => {},
                }
            }
            assert(transfer_views(out@) =~= transfer_rows(*checkpoint, txs@.take(t + 1)));
            t = t + 1;
        }
        assert(txs@.take(txs@.len() as int) =~= txs@);
        out
    }

    /// Appends a batch of processed rows to the pending batch.
    pub fn batch(&self, batch: &mut Vec<UpgradeCapTransfer>, values: Vec<UpgradeCapTransfer>)
        ensures
            final(batch)@ == old(batch)@ + values@,
    {
        let mut values = values;
        batch.append(&mut values);
    }
}

} // verus!
