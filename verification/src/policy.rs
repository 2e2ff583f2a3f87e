//! Upgrade compatibility policies of Sui upgrade caps: their on-chain byte,
//! their text in the database, and their display name.

use vstd::prelude::*;
use vstd::string::*;

use crate::decimal::{int_decimal, push_decimal};
use crate::text::bytes_equal;

verus! {

/// On-chain `UpgradePolicy` byte of the `Compatible` policy.
pub const POLICY_COMPATIBLE: u8 = 0;

/// On-chain `UpgradePolicy` byte of the `Additive` policy.
pub const POLICY_ADDITIVE: u8 = 128;

/// On-chain `UpgradePolicy` byte of the `DepOnly` policy.
pub const POLICY_DEP_ONLY: u8 = 192;

#[derive(Debug, PartialEq, Eq, Structural, Clone, Copy)]
pub enum UpgradeCompatibilityPolicyEnum {
    Compatible,
    Additive,
    DepOnly,
    Immutable,
}

/// The policy that an on-chain policy byte stands for, if any. No byte
/// stands for `Immutable`: that state is not a policy byte on chain.
pub open spec fn policy_of_byte(policy: u8) -> Option<UpgradeCompatibilityPolicyEnum> {
    if policy == POLICY_COMPATIBLE {
        Some(UpgradeCompatibilityPolicyEnum::Compatible)
    } else if policy == POLICY_ADDITIVE {
        Some(UpgradeCompatibilityPolicyEnum::Additive)
    } else if policy == POLICY_DEP_ONLY {
        Some(UpgradeCompatibilityPolicyEnum::DepOnly)
    } else {
        None
    }
}

/// The database text of each policy, as bytes.
pub open spec fn sql_text(p: UpgradeCompatibilityPolicyEnum) -> Seq<u8> {
    match p {
        UpgradeCompatibilityPolicyEnum::Compatible => seq![99u8, 111, 109, 112, 97, 116, 105, 98, 108, 101],
        UpgradeCompatibilityPolicyEnum::Additive => seq![97u8, 100, 100, 105, 116, 105, 118, 101],
        UpgradeCompatibilityPolicyEnum::DepOnly => seq![100u8, 101, 112, 95, 111, 110, 108, 121],
        UpgradeCompatibilityPolicyEnum::Immutable => seq![105u8, 109, 109, 117, 116, 97, 98, 108, 101],
    }
}

/// The policy whose database text is `bytes`, if any.
pub open spec fn policy_of_sql_text(bytes: Seq<u8>) -> Option<UpgradeCompatibilityPolicyEnum> {
    if bytes == sql_text(UpgradeCompatibilityPolicyEnum::Compatible) {
        Some(UpgradeCompatibilityPolicyEnum::Compatible)
    } else if bytes == sql_text(UpgradeCompatibilityPolicyEnum::Additive) {
        Some(UpgradeCompatibilityPolicyEnum::Additive)
    } else if bytes == sql_text(UpgradeCompatibilityPolicyEnum::DepOnly) {
        Some(UpgradeCompatibilityPolicyEnum::DepOnly)
    } else if bytes == sql_text(UpgradeCompatibilityPolicyEnum::Immutable) {
        Some(UpgradeCompatibilityPolicyEnum::Immutable)
    } else {
        None
    }
}

/// The display name of each policy: its variant name.
pub open spec fn display_name(p: UpgradeCompatibilityPolicyEnum) -> Seq<char> {
    match p {
        UpgradeCompatibilityPolicyEnum::Compatible => seq!['C', 'o', 'm', 'p', 'a', 't', 'i', 'b', 'l', 'e'],
        UpgradeCompatibilityPolicyEnum::Additive => seq!['A', 'd', 'd', 'i', 't', 'i', 'v', 'e'],
        UpgradeCompatibilityPolicyEnum::DepOnly => seq!['D', 'e', 'p', 'O', 'n', 'l', 'y'],
        UpgradeCompatibilityPolicyEnum::Immutable => seq!['I', 'm', 'm', 'u', 't', 'a', 'b', 'l', 'e'],
    }
}

/// The message of an unknown policy byte.
pub open spec fn invalid_policy_message(value: u8) -> Seq<char> {
    seq!['I', 'n', 'v', 'a', 'l', 'i', 'd', ' ', 'U', 'p', 'g', 'r', 'a', 'd', 'e', 'C', 'o', 'm',
        'p', 'a', 't', 'i', 'b', 'i', 'l', 'i', 't', 'y', 'P', 'o', 'l', 'i', 'c', 'y', ':', ' ']
        + int_decimal(value as int)
}

/// An on-chain policy byte that names no policy.
#[derive(Debug, PartialEq, Eq, Structural, Clone, Copy)]
pub struct InvalidUpgradePolicy {
    pub value: u8,
}

impl InvalidUpgradePolicy {
    /// "Invalid UpgradeCompatibilityPolicy: {value}".
    pub fn message(&self) -> (res: String)
        ensures
            res@ == invalid_policy_message(self.value),
    {
        let mut res = "Invalid UpgradeCompatibilityPolicy: ".to_owned();
        proof { reveal_strlit("Invalid UpgradeCompatibilityPolicy: "); }
        push_decimal(&mut res, self.value as i64);
        res
    }
}

impl UpgradeCompatibilityPolicyEnum {
    /// The policy of an on-chain policy byte; any other byte is refused.
    pub fn from_u8(policy: u8) -> (res: Result<Self, InvalidUpgradePolicy>)
        ensures
            match policy_of_byte(policy) {
                Some(p) => res == Ok::<Self, InvalidUpgradePolicy>(p),
                None => res == Err::<Self, InvalidUpgradePolicy>(InvalidUpgradePolicy { value: policy }),
            },
    {
        if policy == POLICY_COMPATIBLE {
            Ok(UpgradeCompatibilityPolicyEnum::Compatible)
        } else if policy == POLICY_ADDITIVE {
            Ok(UpgradeCompatibilityPolicyEnum::Additive)
        } else if policy == POLICY_DEP_ONLY {
            Ok(UpgradeCompatibilityPolicyEnum::DepOnly)
        } else {
            Err(InvalidUpgradePolicy { value: policy })
        }
    }

    /// The text under which the policy is stored in the database.
    pub fn to_sql_bytes(&self) -> (res: Vec<u8>)
        ensures
            res@ == sql_text(*self),
    {
        let res = match self {
            UpgradeCompatibilityPolicyEnum::Compatible => vec![99u8, 111, 109, 112, 97, 116, 105, 98, 108, 101],
            UpgradeCompatibilityPolicyEnum::Additive => vec![97u8, 100, 100, 105, 116, 105, 118, 101],
            UpgradeCompatibilityPolicyEnum::DepOnly => vec![100u8, 101, 112, 95, 111, 110, 108, 121],
            UpgradeCompatibilityPolicyEnum::Immutable => vec![105u8, 109, 109, 117, 116, 97, 98, 108, 101],
        };
        assert(res@ =~= sql_text(*self));
        res
    }

    /// The policy stored as `bytes` in the database; `None` for any text
    /// that is not one of the four.
    pub fn from_sql_bytes(bytes: &[u8]) -> (res: Option<Self>)
        ensures
            res == policy_of_sql_text(bytes@),
    {
        let c = UpgradeCompatibilityPolicyEnum::Compatible.to_sql_bytes();
        if bytes_equal(bytes, c.as_slice()) {
            return Some(UpgradeCompatibilityPolicyEnum::Compatible);
        }
        let a = UpgradeCompatibilityPolicyEnum::Additive.to_sql_bytes();
        if bytes_equal(bytes, a.as_slice()) {
            return Some(UpgradeCompatibilityPolicyEnum::Additive);
        }
        let d = UpgradeCompatibilityPolicyEnum::DepOnly.to_sql_bytes();
        if bytes_equal(bytes, d.as_slice()) {
            return Some(UpgradeCompatibilityPolicyEnum::DepOnly);
        }
        let i = UpgradeCompatibilityPolicyEnum::Immutable.to_sql_bytes();
        if bytes_equal(bytes, i.as_slice()) {
            return Some(UpgradeCompatibilityPolicyEnum::Immutable);
        }
        None
    }

    /// The policy's display name.
    pub fn to_display_string(&self) -> (res: String)
        ensures
            res@ == display_name(*self),
    {
        match self {
            UpgradeCompatibilityPolicyEnum::Compatible => {
                proof { reveal_strlit("Compatible"); }
                "Compatible".to_owned()
            },
            UpgradeCompatibilityPolicyEnum::Additive => {
                proof { reveal_strlit("Additive"); }
                "Additive".to_owned()
            },
            UpgradeCompatibilityPolicyEnum::DepOnly => {
                proof { reveal_strlit("DepOnly"); }
                "DepOnly".to_owned()
            },
            UpgradeCompatibilityPolicyEnum::Immutable => {
                proof { reveal_strlit("Immutable"); }
                "Immutable".to_owned()
            },
        }
    }
}

/// Storing a policy and reading it back gives the same policy.
pub proof fn lemma_sql_text_round_trip(p: UpgradeCompatibilityPolicyEnum)
    ensures
        policy_of_sql_text(sql_text(p)) == Some(p),
{
    assert(sql_text(UpgradeCompatibilityPolicyEnum::Compatible) != sql_text(UpgradeCompatibilityPolicyEnum::Additive));
    assert(sql_text(UpgradeCompatibilityPolicyEnum::Compatible)[0] != sql_text(UpgradeCompatibilityPolicyEnum::DepOnly)[0]);
    assert(sql_text(UpgradeCompatibilityPolicyEnum::Compatible)[0] != sql_text(UpgradeCompatibilityPolicyEnum::Immutable)[0]);
    assert(sql_text(UpgradeCompatibilityPolicyEnum::Additive)[0] != sql_text(UpgradeCompatibilityPolicyEnum::DepOnly)[0]);
    assert(sql_text(UpgradeCompatibilityPolicyEnum::Additive)[0] != sql_text(UpgradeCompatibilityPolicyEnum::Immutable)[0]);
    assert(sql_text(UpgradeCompatibilityPolicyEnum::DepOnly)[0] != sql_text(UpgradeCompatibilityPolicyEnum::Immutable)[0]);
}

/// Every text read from the database as a policy is exactly the text under
/// which that policy is stored.
pub proof fn lemma_sql_text_read_is_stored_text(bytes: Seq<u8>)
    ensures
        policy_of_sql_text(bytes) matches Some(p) ==> sql_text(p) == bytes,
{
}

/// No on-chain policy byte reads as `Immutable`, and each policy read from
/// a byte is the one that byte's constant names.
pub proof fn lemma_policy_bytes(policy: u8)
    ensures
        policy_of_byte(policy) != Some(UpgradeCompatibilityPolicyEnum::Immutable),
        policy_of_byte(policy) is Some <==> (policy == 0 || policy == 128 || policy == 192),
{
}

} // verus!
