//! What the indexer reads of a checkpoint: its transactions, their
//! commands and inputs, the objects they created or changed, and the objects
//! the checkpoint carries. Object ids are kept in their `0x` hex form.

use vstd::prelude::*;

use crate::address::{zero_address, zero_address_text};

verus! {

/// An object id with a version: the key of an object in a checkpoint.
#[derive(Clone, Debug)]
pub struct ObjectKey {
    pub id: String,
    pub version: u64,
}

/// Who owns an object; addresses in their text form.
#[derive(Clone, Debug)]
pub enum Owner {
    AddressOwner(String),
    ObjectOwner(String),
    Shared,
    Immutable,
    ConsensusAddressOwner(String),
}

/// The fields of an on-chain `UpgradeCap` object.
#[derive(Clone, Debug)]
pub struct UpgradeCapValue {
    pub id: String,
    pub package: String,
    pub version: u64,
    pub policy: u8,
}

/// The contents of an object: an upgrade cap, another Move object, or a
/// package.
#[derive(Clone, Debug)]
pub enum ObjectData {
    UpgradeCap(UpgradeCapValue),
    OtherMove,
    Package,
}

/// An object as the checkpoint carries it. `single_owner` is the address of
/// its single owner when it has one.
#[derive(Clone, Debug)]
pub struct Object {
    pub id: String,
    pub version: u64,
    pub owner: Owner,
    pub single_owner: Option<String>,
    pub data: ObjectData,
}

/// An argument of a command; only transaction inputs are told apart.
#[derive(Clone, Debug)]
pub enum Argument {
    Input(u16),
    Other,
}

/// A transaction input. A pure input carries the address text of its bytes
/// when they are an address; an owned object input carries its key.
#[derive(Clone, Debug)]
pub enum CallArg {
    Pure(Option<String>),
    ImmOrOwnedObject(ObjectKey),
    Other,
}

/// A Move call: the package's 32 address bytes, module, function, arguments.
#[derive(Clone, Debug)]
pub struct MoveCall {
    pub package: Vec<u8>,
    pub module: String,
    pub function: String,
    pub arguments: Vec<Argument>,
}

#[derive(Clone, Debug)]
pub enum Command {
    Publish,
    TransferObjects(Vec<Argument>, Argument),
    MoveCall(MoveCall),
    Other,
}

#[derive(Clone, Debug)]
pub struct ProgrammableTransaction {
    pub inputs: Vec<CallArg>,
    pub commands: Vec<Command>,
}

#[derive(Clone, Debug)]
pub enum TransactionKind {
    ProgrammableTransaction(ProgrammableTransaction),
    ProgrammableSystemTransaction(ProgrammableTransaction),
    Other,
}

/// An executed transaction: its digest, whether it succeeded, what it ran,
/// the keys of the objects it created and of those it mutated (gas
/// excluded), and its output objects.
#[derive(Clone, Debug)]
pub struct ExecutedTransaction {
    pub digest: String,
    pub succeeded: bool,
    pub kind: TransactionKind,
    pub created: Vec<ObjectKey>,
    pub mutated_excluding_gas: Vec<ObjectKey>,
    pub output_objects: Vec<Object>,
}

/// A checkpoint: its sequence number, its time in milliseconds since the
/// Unix epoch, its transactions, and the objects it carries.
#[derive(Clone, Debug)]
pub struct Checkpoint {
    pub sequence_number: u64,
    pub timestamp_ms: u64,
    pub transactions: Vec<ExecutedTransaction>,
    pub objects: Vec<Object>,
}

/// How an owner is written in a row: the owner's address, or "shared" or
/// "immutable".
pub open spec fn owner_text(owner: Owner) -> Seq<char> {
    match owner {
        Owner::AddressOwner(a) => a@,
        Owner::ObjectOwner(a) => a@,
        Owner::Shared => seq!['s', 'h', 'a', 'r', 'e', 'd'],
        Owner::Immutable => seq!['i', 'm', 'm', 'u', 't', 'a', 'b', 'l', 'e'],
        Owner::ConsensusAddressOwner(a) => a@,
    }
}

/// The text of an object's owner.
pub fn owner_label(owner: &Owner) -> (res: String)
    ensures
        res@ == owner_text(*owner),
{
    match owner {
        Owner::AddressOwner(a) => a.clone(),
        Owner::ObjectOwner(a) => a.clone(),
        Owner::Shared => {
            proof { reveal_strlit("shared"); }
            "shared".to_owned()
        },
        Owner::Immutable => {
            proof { reveal_strlit("immutable"); }
            "immutable".to_owned()
        },
        Owner::ConsensusAddressOwner(a) => a.clone(),
    }
}

/// Whether an object has the given key.
pub open spec fn has_key(obj: Object, id: Seq<char>, version: u64) -> bool {
    obj.id@ == id && obj.version == version
}

/// The first object at or after position `i` with the given key.
pub open spec fn lookup_from(objects: Seq<Object>, id: Seq<char>, version: u64, i: int) -> Option<Object>
    decreases objects.len() - i,
{
    if i < 0 || i >= objects.len() {
        None
    } else if has_key(objects[i], id, version) {
        Some(objects[i])
    } else {
        lookup_from(objects, id, version, i + 1)
    }
}

/// The object with the given key, if the objects hold one.
pub open spec fn lookup(objects: Seq<Object>, id: Seq<char>, version: u64) -> Option<Object> {
    lookup_from(objects, id, version, 0)
}

/// The first object with a key is the one that a lookup of that key finds.
pub proof fn lemma_lookup_first(objects: Seq<Object>, id: Seq<char>, version: u64, o: int)
    requires
        0 <= o < objects.len(),
        has_key(objects[o], id, version),
        forall|j: int| 0 <= j < o ==> !has_key(#[trigger] objects[j], id, version),
    ensures
        lookup(objects, id, version) == Some(objects[o]),
{
    lemma_lookup_from_before(objects, id, version, o, 0);
}

proof fn lemma_lookup_from_before(objects: Seq<Object>, id: Seq<char>, version: u64, o: int, i: int)
    requires
        0 <= i <= o < objects.len(),
        has_key(objects[o], id, version),
        forall|j: int| 0 <= j < o ==> !has_key(#[trigger] objects[j], id, version),
    ensures
        lookup_from(objects, id, version, i) == Some(objects[o]),
    decreases o - i,
{
    if i < o {
        lemma_lookup_from_before(objects, id, version, o, i + 1);
    }
}

/// Finds the object with the given key.
pub fn get_object<'a>(objects: &'a Vec<Object>, key: &ObjectKey) -> (res: Option<&'a Object>)
    ensures
        res matches Some(o) ==> lookup(objects@, key.id@, key.version) == Some(*o),
        res is None ==> lookup(objects@, key.id@, key.version) is None,
{
    let mut i: usize = 0;
    while i < objects.len()
        invariant
            0 <= i <= objects@.len(),
            lookup(objects@, key.id@, key.version) == lookup_from(objects@, key.id@, key.version, i as int),
        decreases objects@.len() - i,
    {
        let obj = &objects[i];
        if obj.version == key.version && obj.id == key.id {
            return Some(obj);
        }
        i = i + 1;
    }
    None
}

/// The programmable transaction that a transaction runs, if it runs one.
pub open spec fn programmable(kind: TransactionKind) -> Option<ProgrammableTransaction> {
    match kind {
        TransactionKind::ProgrammableTransaction(pt) => Some(pt),
        TransactionKind::ProgrammableSystemTransaction(pt) => Some(pt),
        TransactionKind::Other => None,
    }
}

/// The input that an argument refers to, if it refers to one that exists.
pub open spec fn input_of(pt: ProgrammableTransaction, arg: Argument) -> Option<CallArg> {
    match arg {
        Argument::Input(idx) => if (idx as int) < pt.inputs@.len() {
            Some(pt.inputs@[idx as int])
        } else {
            None
        },
        Argument::Other => None,
    }
}

/// Finds the input that an argument refers to.
pub fn get_input<'a>(pt: &'a ProgrammableTransaction, arg: &Argument) -> (res: Option<&'a CallArg>)
    ensures
        res matches Some(c) ==> input_of(*pt, *arg) == Some(*c),
        res is None ==> input_of(*pt, *arg) is None,
{
    match arg {
        Argument::Input(idx) => {
            let idx = *idx as usize;
            if idx < pt.inputs.len() {
                Some(&pt.inputs[idx])
            } else {
                None
            }
        },
        Argument::Other => None,
    }
}

/// The receiver of a transfer: the address that its argument's pure input
/// holds, or the zero address when the argument is not such an input.
pub open spec fn receiver_text(pt: ProgrammableTransaction, receiver: Argument) -> Seq<char> {
    match input_of(pt, receiver) {
        Some(CallArg::Pure(Some(address))) => address@,
        _ => zero_address_text(),
    }
}

/// The receiver address of a transfer.
pub fn receiver_address(pt: &ProgrammableTransaction, receiver: &Argument) -> (res: String)
    ensures
        res@ == receiver_text(*pt, *receiver),
{
    match get_input(pt, receiver) {
        Some(CallArg::Pure(Some(address))) => address.clone(),
        _ => zero_address(),
    }
}

} // verus!
