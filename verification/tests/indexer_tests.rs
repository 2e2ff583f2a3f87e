use phantom_cap::address::zero_address;
use phantom_cap::checkpoint::{
    owner_label, Argument, CallArg, Checkpoint, Command, ExecutedTransaction, MoveCall, Object, ObjectData,
    ObjectKey, Owner, ProgrammableTransaction, TransactionKind, UpgradeCapValue,
};
use phantom_cap::policy::UpgradeCompatibilityPolicyEnum;
use phantom_cap::{created, transfer, upgrade, upgrade_cap_handler};
use phantom_cap::created::check_created_objects_present;
use phantom_cap::transfer::check_transferred_caps_have_owners;

fn s(x: &str) -> String {
    x.to_string()
}

fn key(id: &str, version: u64) -> ObjectKey {
    ObjectKey { id: s(id), version }
}

fn cap_object(id: &str, version: u64, owner: Owner, package: &str, cap_version: u64) -> Object {
    let single_owner = match &owner {
        Owner::AddressOwner(a) | Owner::ObjectOwner(a) | Owner::ConsensusAddressOwner(a) => Some(a.clone()),
        _ => None,
    };
    Object {
        id: s(id),
        version,
        owner,
        single_owner,
        data: ObjectData::UpgradeCap(UpgradeCapValue { id: s(id), package: s(package), version: cap_version, policy: 0 }),
    }
}

fn plain_object(id: &str, version: u64) -> Object {
    Object {
        id: s(id),
        version,
        owner: Owner::AddressOwner(s("0xalice")),
        single_owner: Some(s("0xalice")),
        data: ObjectData::OtherMove,
    }
}

fn programmable(inputs: Vec<CallArg>, commands: Vec<Command>) -> TransactionKind {
    TransactionKind::ProgrammableTransaction(ProgrammableTransaction { inputs, commands })
}

fn tx(digest: &str, succeeded: bool, kind: TransactionKind) -> ExecutedTransaction {
    ExecutedTransaction {
        digest: s(digest),
        succeeded,
        kind,
        created: vec![],
        mutated_excluding_gas: vec![],
        output_objects: vec![],
    }
}

fn framework() -> Vec<u8> {
    let mut p = vec![0u8; 32];
    p[31] = 2;
    p
}

fn commit_upgrade(args: Vec<Argument>) -> Command {
    Command::MoveCall(MoveCall {
        package: framework(),
        module: s("package"),
        function: s("commit_upgrade"),
        arguments: args,
    })
}

fn empty_checkpoint() -> Checkpoint {
    Checkpoint { sequence_number: 10, timestamp_ms: 1_700_000_000_000, transactions: vec![], objects: vec![] }
}

#[test]
fn owner_labels() {
    assert_eq!(owner_label(&Owner::AddressOwner(s("0xa"))), "0xa");
    assert_eq!(owner_label(&Owner::ObjectOwner(s("0xb"))), "0xb");
    assert_eq!(owner_label(&Owner::ConsensusAddressOwner(s("0xc"))), "0xc");
    assert_eq!(owner_label(&Owner::Shared), "shared");
    assert_eq!(owner_label(&Owner::Immutable), "immutable");
}

#[test]
fn empty_checkpoint_yields_no_rows() {
    let cp = empty_checkpoint();
    assert!(transfer::UpgradeCapHandler.process(&cp).is_empty());
    assert!(upgrade::UpgradeCapHandler.process(&cp).is_empty());
    assert!(created::UpgradeCapHandler.process(&cp).is_empty());
    assert!(upgrade_cap_handler::UpgradeCapHandler.process(&cp).is_empty());
}

fn transfer_checkpoint() -> Checkpoint {
    let mut cp = empty_checkpoint();
    cp.objects = vec![
        cap_object("0xcap1", 5, Owner::AddressOwner(s("0xalice")), "0xpkg1", 1),
        plain_object("0xcoin", 3),
        cap_object("0xcap2", 9, Owner::AddressOwner(s("0xcarol")), "0xpkg2", 2),
    ];
    let inputs = vec![
        CallArg::ImmOrOwnedObject(key("0xcap1", 5)),
        CallArg::ImmOrOwnedObject(key("0xcoin", 3)),
        CallArg::Pure(Some(s("0xbob"))),
        CallArg::ImmOrOwnedObject(key("0xcap2", 9)),
        CallArg::Pure(None),
    ];
    let commands = vec![
        Command::TransferObjects(vec![Argument::Input(0), Argument::Input(1)], Argument::Input(2)),
        Command::Publish,
        Command::TransferObjects(vec![Argument::Input(3), Argument::Other, Argument::Input(40)], Argument::Input(4)),
    ];
    cp.transactions = vec![
        tx("Ok1", true, programmable(inputs.clone(), commands.clone())),
        tx("Failed", false, programmable(inputs.clone(), commands.clone())),
        tx("Other", true, TransactionKind::Other),
    ];
    cp
}

#[test]
fn transfers_of_caps_are_recorded() {
    let cp = transfer_checkpoint();
    let rows = transfer::UpgradeCapHandler.process(&cp);
    assert_eq!(rows.len(), 2);
    assert_eq!(rows[0].object_id, "0xcap1");
    assert_eq!(rows[0].old_owner_address, "0xalice");
    assert_eq!(rows[0].new_owner_address, "0xbob");
    assert_eq!(rows[0].tx_digest, "Ok1");
    assert_eq!(rows[0].seq_checkpoint, 10);
    assert_eq!(rows[0].timestamp, 1_700_000_000_000);
    assert_eq!(rows[1].object_id, "0xcap2");
    assert_eq!(rows[1].old_owner_address, "0xcarol");
    // A pure input that is not an address leaves the zero address.
    assert_eq!(rows[1].new_owner_address, zero_address());
}

#[test]
fn failed_transactions_transfer_nothing() {
    let cp = transfer_checkpoint();
    let rows = transfer::UpgradeCapHandler.process(&cp);
    assert!(rows.iter().all(|r| r.tx_digest == "Ok1"));
}

#[test]
fn receiver_that_is_not_an_input_is_the_zero_address() {
    let mut cp = empty_checkpoint();
    cp.objects = vec![cap_object("0xcap1", 5, Owner::AddressOwner(s("0xalice")), "0xpkg1", 1)];
    let inputs = vec![CallArg::ImmOrOwnedObject(key("0xcap1", 5))];
    let commands = vec![Command::TransferObjects(vec![Argument::Input(0)], Argument::Other)];
    cp.transactions = vec![ExecutedTransaction {
        kind: TransactionKind::ProgrammableSystemTransaction(ProgrammableTransaction { inputs, commands }),
        ..tx("Sys", true, TransactionKind::Other)
    }];
    let rows = transfer::UpgradeCapHandler.process(&cp);
    assert_eq!(rows.len(), 1);
    assert_eq!(rows[0].new_owner_address, zero_address());
}

fn upgrade_checkpoint() -> Checkpoint {
    let mut cp = empty_checkpoint();
    cp.sequence_number = 42;
    cp.objects = vec![
        cap_object("0xcap1", 7, Owner::AddressOwner(s("0xalice")), "0xpkg1v2", 2),
        cap_object("0xcap2", 8, Owner::Shared, "0xpkg2v3", 3),
    ];
    let inputs = vec![
        CallArg::ImmOrOwnedObject(key("0xcap1", 6)),
        CallArg::ImmOrOwnedObject(key("0xcap2", 7)),
    ];
    let mut other_module = match commit_upgrade(vec![Argument::Input(1)]) {
        Command::MoveCall(c) => c,
        _ => unreachable!(),
    };
    other_module.module = s("other");
    let mut other_package = match commit_upgrade(vec![Argument::Input(1)]) {
        Command::MoveCall(c) => c,
        _ => unreachable!(),
    };
    other_package.package[31] = 3;
    let commands = vec![
        commit_upgrade(vec![Argument::Input(0)]),
        Command::MoveCall(other_module),
        Command::MoveCall(other_package),
        commit_upgrade(vec![]),
        commit_upgrade(vec![Argument::Input(1)]),
    ];
    let mut ok = tx("Up1", true, programmable(inputs.clone(), commands.clone()));
    ok.mutated_excluding_gas = vec![key("0xgas", 1), key("0xcap1", 7), key("0xcap2", 8)];
    let mut failed = tx("UpFailed", false, programmable(inputs, commands));
    failed.mutated_excluding_gas = vec![key("0xcap1", 7)];
    cp.transactions = vec![ok, failed];
    cp
}

#[test]
fn commit_upgrades_are_recorded() {
    let cp = upgrade_checkpoint();
    let rows = upgrade::UpgradeCapHandler.process(&cp);
    assert_eq!(rows.len(), 2);
    assert_eq!(rows[0].object_id, "0xcap1");
    assert_eq!(rows[0].package_id, "0xpkg1v2");
    assert_eq!(rows[0].version, 2);
    assert_eq!(rows[0].publisher, "0xalice");
    assert_eq!(rows[0].tx_digest, "Up1");
    assert_eq!(rows[0].seq_checkpoint, 42);
    assert_eq!(rows[1].object_id, "0xcap2");
    assert_eq!(rows[1].version, 3);
    assert_eq!(rows[1].publisher, "shared");
}

#[test]
fn unmutated_cap_is_not_an_upgrade() {
    let mut cp = upgrade_checkpoint();
    cp.transactions[0].mutated_excluding_gas = vec![key("0xcap2", 8)];
    let rows = upgrade::UpgradeCapHandler.process(&cp);
    assert_eq!(rows.len(), 1);
    assert_eq!(rows[0].object_id, "0xcap2");
}

fn publish_checkpoint() -> Checkpoint {
    let mut cp = empty_checkpoint();
    cp.objects = vec![
        plain_object("0xpkgobj", 1),
        cap_object("0xnewcap", 1, Owner::AddressOwner(s("0xdeployer")), "0xnewpkg", 1),
        cap_object("0xsyscap", 1, Owner::Immutable, "0xsyspkg", 1),
    ];
    let mut publish = tx("Pub", true, programmable(vec![], vec![Command::Publish]));
    publish.created = vec![key("0xpkgobj", 1), key("0xnewcap", 1)];
    publish.output_objects = vec![cp.objects[0].clone(), cp.objects[1].clone()];
    let mut failed = tx("PubFailed", false, programmable(vec![], vec![Command::Other, Command::Publish]));
    failed.output_objects = vec![cp.objects[1].clone()];
    let mut system = tx(
        "Sys",
        true,
        TransactionKind::ProgrammableSystemTransaction(ProgrammableTransaction { inputs: vec![], commands: vec![Command::Publish] }),
    );
    system.created = vec![key("0xsyscap", 1)];
    system.output_objects = vec![cp.objects[2].clone()];
    let no_publish = tx("NoPub", true, programmable(vec![], vec![Command::Other]));
    cp.transactions = vec![publish, failed, system, no_publish];
    cp
}

#[test]
fn created_caps_of_successful_publishes() {
    let cp = publish_checkpoint();
    let rows = created::UpgradeCapHandler.process(&cp);
    assert_eq!(rows.len(), 2);
    assert_eq!(rows[0].object_id, "0xnewcap");
    assert_eq!(rows[0].package_id, "0xnewpkg");
    assert_eq!(rows[0].owner_address, "0xdeployer");
    assert_eq!(rows[0].policy, UpgradeCompatibilityPolicyEnum::Compatible);
    assert_eq!(rows[0].version, 1);
    assert_eq!(rows[0].init_seq_checkpoint, 10);
    assert_eq!(rows[0].init_tx_digest, "Pub");
    assert_eq!(rows[0].created_at, 1_700_000_000_000);
    assert_eq!(rows[0].updated_at, rows[0].created_at);
    // Programmable system transactions count as publishers here.
    assert_eq!(rows[1].object_id, "0xsyscap");
    assert_eq!(rows[1].owner_address, "immutable");
    assert_eq!(rows[1].init_tx_digest, "Sys");
}

#[test]
fn first_output_cap_of_each_publish() {
    let cp = publish_checkpoint();
    let rows = upgrade_cap_handler::UpgradeCapHandler.process(&cp);
    // Only programmable transactions, failed ones included.
    assert_eq!(rows.len(), 2);
    assert_eq!(rows[0].object_id, "0xnewcap");
    assert_eq!(rows[0].init_tx_digest, "Pub");
    assert_eq!(rows[1].object_id, "0xnewcap");
    assert_eq!(rows[1].init_tx_digest, "PubFailed");
    assert_eq!(rows[1].policy, UpgradeCompatibilityPolicyEnum::Compatible);
}

#[test]
fn batching_appends_in_order() {
    let cp = transfer_checkpoint();
    let mut batch = transfer::UpgradeCapHandler.process(&cp);
    let more = transfer::UpgradeCapHandler.process(&cp);
    transfer::UpgradeCapHandler.batch(&mut batch, more);
    assert_eq!(batch.len(), 4);
    assert_eq!(batch[2].object_id, "0xcap1");
    assert_eq!(batch[3].object_id, "0xcap2");
}

#[test]
fn shared_cap_cannot_be_transferred_from_an_owner() {
    let mut cp = transfer_checkpoint();
    assert!(check_transferred_caps_have_owners(&cp));
    cp.objects[0] = cap_object("0xcap1", 5, Owner::Shared, "0xpkg1", 1);
    assert!(!check_transferred_caps_have_owners(&cp));
    // A failed transaction's transfers are never looked at.
    cp.transactions.remove(0);
    assert!(check_transferred_caps_have_owners(&cp));
}

#[test]
fn created_objects_must_be_carried() {
    let mut cp = publish_checkpoint();
    assert!(check_created_objects_present(&cp));
    cp.objects.remove(0);
    assert!(!check_created_objects_present(&cp));
    // Creations of a failed publish are not needed.
    cp.transactions[0].succeeded = false;
    assert!(check_created_objects_present(&cp));
}

#[test]
fn created_rows_are_compatible_and_fresh() {
    let cp = publish_checkpoint();
    for row in created::UpgradeCapHandler.process(&cp) {
        assert_eq!(row.policy, UpgradeCompatibilityPolicyEnum::Compatible);
        assert_eq!(row.created_at, row.updated_at);
        assert_eq!(row.init_seq_checkpoint, 10);
        assert!(row.init_tx_digest == "Pub" || row.init_tx_digest == "Sys");
    }
}

#[test]
fn failed_upgrades_are_not_recorded() {
    let cp = upgrade_checkpoint();
    let rows = upgrade::UpgradeCapHandler.process(&cp);
    assert!(rows.iter().all(|r| r.tx_digest == "Up1" && r.seq_checkpoint == 42));
}

#[test]
fn at_most_one_cap_per_publishing_transaction() {
    let mut cp = publish_checkpoint();
    let extra = cap_object("0xextra", 1, Owner::AddressOwner(s("0xz")), "0xpkgz", 1);
    cp.transactions[0].output_objects.push(extra);
    let rows = upgrade_cap_handler::UpgradeCapHandler.process(&cp);
    assert_eq!(rows.len(), 2);
    assert_eq!(rows[0].object_id, "0xnewcap");
}

#[test]
fn publishing_positions_in_increasing_order() {
    let cp = publish_checkpoint();
    assert_eq!(phantom_cap::publish::publish_command_exists(&cp, true), vec![0, 1, 2]);
    assert_eq!(phantom_cap::publish::publish_command_exists(&cp, false), vec![0, 1]);
    assert!(phantom_cap::publish::publish_command_exists(&empty_checkpoint(), true).is_empty());
}
