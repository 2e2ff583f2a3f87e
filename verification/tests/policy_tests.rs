use phantom_cap::address::zero_address;
use phantom_cap::models::FullUpgradeCap;
use phantom_cap::policy::{InvalidUpgradePolicy, UpgradeCompatibilityPolicyEnum};

const ALL: [UpgradeCompatibilityPolicyEnum; 4] = [
    UpgradeCompatibilityPolicyEnum::Compatible,
    UpgradeCompatibilityPolicyEnum::Additive,
    UpgradeCompatibilityPolicyEnum::DepOnly,
    UpgradeCompatibilityPolicyEnum::Immutable,
];

#[test]
fn policy_bytes() {
    assert_eq!(UpgradeCompatibilityPolicyEnum::from_u8(0), Ok(UpgradeCompatibilityPolicyEnum::Compatible));
    assert_eq!(UpgradeCompatibilityPolicyEnum::from_u8(128), Ok(UpgradeCompatibilityPolicyEnum::Additive));
    assert_eq!(UpgradeCompatibilityPolicyEnum::from_u8(192), Ok(UpgradeCompatibilityPolicyEnum::DepOnly));
}

#[test]
fn unknown_policy_byte_is_refused() {
    for b in [1u8, 127, 129, 191, 193, 255, 255 - 0] {
        assert_eq!(UpgradeCompatibilityPolicyEnum::from_u8(b), Err(InvalidUpgradePolicy { value: b }));
    }
    let err = UpgradeCompatibilityPolicyEnum::from_u8(7).unwrap_err();
    assert_eq!(err.message(), "Invalid UpgradeCompatibilityPolicy: 7");
}

#[test]
fn no_byte_is_immutable() {
    for b in 0..=255u8 {
        assert_ne!(UpgradeCompatibilityPolicyEnum::from_u8(b), Ok(UpgradeCompatibilityPolicyEnum::Immutable));
    }
}

#[test]
fn sql_text_of_each_policy() {
    assert_eq!(UpgradeCompatibilityPolicyEnum::Compatible.to_sql_bytes(), b"compatible".to_vec());
    assert_eq!(UpgradeCompatibilityPolicyEnum::Additive.to_sql_bytes(), b"additive".to_vec());
    assert_eq!(UpgradeCompatibilityPolicyEnum::DepOnly.to_sql_bytes(), b"dep_only".to_vec());
    assert_eq!(UpgradeCompatibilityPolicyEnum::Immutable.to_sql_bytes(), b"immutable".to_vec());
}

#[test]
fn sql_round_trip() {
    for p in ALL {
        assert_eq!(UpgradeCompatibilityPolicyEnum::from_sql_bytes(&p.to_sql_bytes()), Some(p));
    }
}

#[test]
fn unknown_sql_text_is_refused() {
    for text in [&b""[..], b"Compatible", b"dep-only", b"immutable ", b"additiv"] {
        assert_eq!(UpgradeCompatibilityPolicyEnum::from_sql_bytes(text), None);
    }
}

#[test]
fn display_names() {
    let names: Vec<String> = ALL.iter().map(|p| p.to_display_string()).collect();
    assert_eq!(names, vec!["Compatible", "Additive", "DepOnly", "Immutable"]);
}

#[test]
fn zero_address_text() {
    let z = zero_address();
    assert_eq!(z.len(), 66);
    assert_eq!(z, format!("0x{}", "0".repeat(64)));
}

fn sample_cap() -> FullUpgradeCap {
    FullUpgradeCap {
        object_id: "0xcap".to_string(),
        package_id: "0xpkg".to_string(),
        version: 1,
        owner_address: "0xowner".to_string(),
        policy: UpgradeCompatibilityPolicyEnum::Additive,
        created_seq_checkpoint: 77,
        created_tx_digest: "Digest1".to_string(),
        created_at: 1_700_000_000_123,
    }
}

#[test]
fn creation_rows_agree() {
    let cap = sample_cap();
    let row = cap.db_dto();
    let version = cap.creation_version();
    let transfer = cap.creation_transfer();
    assert_eq!(row.object_id, "0xcap");
    assert_eq!(row.policy, UpgradeCompatibilityPolicyEnum::Additive);
    assert_eq!(row.created_seq_checkpoint, 77);
    assert_eq!(row.created_tx_digest, "Digest1");
    assert_eq!(row.created_at, 1_700_000_000_123);
    assert_eq!(version.object_id, "0xcap");
    assert_eq!(version.package_id, "0xpkg");
    assert_eq!(version.version, 1);
    assert_eq!(version.seq_checkpoint, 77);
    assert_eq!(version.tx_digest, "Digest1");
    assert_eq!(version.publisher, "0xowner");
    assert_eq!(version.timestamp, 1_700_000_000_123);
    assert_eq!(transfer.object_id, "0xcap");
    assert_eq!(transfer.old_owner_address, zero_address());
    assert_eq!(transfer.new_owner_address, "0xowner");
    assert_eq!(transfer.seq_checkpoint, 77);
    assert_eq!(transfer.tx_digest, "Digest1");
    assert_eq!(transfer.timestamp, 1_700_000_000_123);
}
