//! Plain-value models of the ledger data the storage facade reads and
//! writes: keys, entries, contract instances and account records. The
//! facade never inspects payloads beyond what these shapes expose; byte
//! blobs (contract code, instance storage) stay opaque.
//!
//! Equality and cloning used by verified code are written out as functions
//! with exact contracts; the derived impls exist only for unverified
//! callers such as tests.

use vstd::prelude::*;

verus! {

broadcast use vstd::array::group_array_axioms;

/// A 32-byte hash identifying a contract or a WASM blob.
#[derive(Clone, Copy, Debug, PartialEq, Eq)]
pub struct Hash256(pub [u8; 32]);

/// A 32-byte scalar, e.g. an ed25519 public key.
#[derive(Clone, Copy, Debug, PartialEq, Eq)]
pub struct Uint256(pub [u8; 32]);

/// An account identifier: an ed25519 public key.
#[derive(Clone, Copy, Debug, PartialEq, Eq)]
pub struct AccountId(pub Uint256);

/// An address: an account or a contract.
#[derive(Clone, Copy, Debug, PartialEq, Eq)]
pub enum ScAddress {
    Account(AccountId),
    Contract(Hash256),
}

/// The storage class of a contract data entry; this core only produces
/// persistent entries.
#[derive(Clone, Copy, Debug, PartialEq, Eq)]
pub enum ContractDataDurability {
    Temporary,
    Persistent,
}

/// A reserved extension slot.
#[derive(Clone, Copy, Debug, PartialEq, Eq)]
pub enum ExtensionPoint {
    V0,
}

/// A contract instance's own key/value storage, carried through opaquely.
#[derive(Clone, Debug, PartialEq, Eq)]
pub struct ScMap(pub Vec<u8>);

/// What a contract executes: a WASM blob referenced by hash, or the
/// built-in token.
#[derive(Clone, Copy, Debug, PartialEq, Eq)]
pub enum ContractExecutable {
    Wasm(Hash256),
    Token,
}

/// A contract instance: its executable and its instance storage.
#[derive(Clone, Debug, PartialEq, Eq)]
pub struct ScContractInstance {
    pub executable: ContractExecutable,
    pub storage: Option<ScMap>,
}

/// The values the storage facade distinguishes: the reserved
/// contract-instance key, an instance payload, and a stand-in for every
/// other value shape.
#[derive(Clone, Debug, PartialEq, Eq)]
pub enum ScVal {
    LedgerKeyContractInstance,
    ContractInstance(ScContractInstance),
    U32(u32),
}

/// Key of a contract data entry.
#[derive(Clone, Debug, PartialEq, Eq)]
pub struct LedgerKeyContractData {
    pub contract: ScAddress,
    pub key: ScVal,
    pub durability: ContractDataDurability,
}

/// Key of a contract code entry.
#[derive(Clone, Copy, Debug, PartialEq, Eq)]
pub struct LedgerKeyContractCode {
    pub hash: Hash256,
}

/// Key of an account entry.
#[derive(Clone, Copy, Debug, PartialEq, Eq)]
pub struct LedgerKeyAccount {
    pub account_id: AccountId,
}

/// An asset in a trustline key: the native asset or an alphanumeric code
/// with its issuer.
#[derive(Clone, Copy, Debug, PartialEq, Eq)]
pub enum TrustLineAsset {
    Native,
    CreditAlphanum4 { asset_code: [u8; 4], issuer: AccountId },
    CreditAlphanum12 { asset_code: [u8; 12], issuer: AccountId },
}

/// Key of a trustline entry.
#[derive(Clone, Copy, Debug, PartialEq, Eq)]
pub struct LedgerKeyTrustLine {
    pub account_id: AccountId,
    pub asset: TrustLineAsset,
}

/// A ledger key: the address of one ledger entry.
#[derive(Clone, Debug, PartialEq, Eq)]
pub enum LedgerKey {
    ContractData(LedgerKeyContractData),
    ContractCode(LedgerKeyContractCode),
    Account(LedgerKeyAccount),
    Trustline(LedgerKeyTrustLine),
}

/// A contract data ledger entry.
#[derive(Clone, Debug, PartialEq, Eq)]
pub struct ContractDataEntry {
    pub contract: ScAddress,
    pub key: ScVal,
    pub val: ScVal,
    pub durability: ContractDataDurability,
    pub ext: ExtensionPoint,
}

/// A contract code ledger entry: the raw WASM bytes under their hash.
#[derive(Clone, Debug, PartialEq, Eq)]
pub struct ContractCodeEntry {
    pub ext: ExtensionPoint,
    pub hash: Hash256,
    pub code: Vec<u8>,
}

/// The index of the master weight in an account's threshold array.
pub const THRESHOLD_MASTER_WEIGHT: usize = 0;

/// An account's four signing thresholds; the first is the master weight.
#[derive(Clone, Copy, Debug, PartialEq, Eq)]
pub struct Thresholds(pub [u8; 4]);

/// An additional signer key on an account.
#[derive(Clone, Copy, Debug, PartialEq, Eq)]
pub enum SignerKey {
    Ed25519(Uint256),
    PreAuthTx(Uint256),
    HashX(Uint256),
}

/// An additional signer on an account, with its weight.
#[derive(Clone, Copy, Debug, PartialEq, Eq)]
pub struct Signer {
    pub key: SignerKey,
    pub weight: u32,
}

/// An account ledger entry: the master key, its thresholds and any
/// additional signers.
#[derive(Clone, Debug, PartialEq, Eq)]
pub struct AccountEntry {
    pub account_id: AccountId,
    pub thresholds: Thresholds,
    pub signers: Vec<Signer>,
}

/// The payload of a ledger entry.
#[derive(Clone, Debug, PartialEq, Eq)]
pub enum LedgerEntryData {
    Account(AccountEntry),
    ContractData(ContractDataEntry),
    ContractCode(ContractCodeEntry),
}

/// A reserved extension slot of a ledger entry.
#[derive(Clone, Copy, Debug, PartialEq, Eq)]
pub enum LedgerEntryExt {
    V0,
}

/// One ledger entry as stored.
#[derive(Clone, Debug, PartialEq, Eq)]
pub struct LedgerEntry {
    /// Overwritten by the ledger on commit; the core writes zero.
    pub last_modified_ledger_seq: u32,
    pub data: LedgerEntryData,
    pub ext: LedgerEntryExt,
}

/// The preimage of a contract identifier before hashing.
#[derive(Clone, Copy, Debug, PartialEq, Eq)]
pub enum ContractIdPreimage {
    Address { address: ScAddress, salt: Uint256 },
    Asset(TrustLineAsset),
}

/// A contract-id preimage bound to its network.
#[derive(Clone, Copy, Debug, PartialEq, Eq)]
pub struct HashIdPreimageContractId {
    pub network_id: Hash256,
    pub contract_id_preimage: ContractIdPreimage,
}

/// A network-bound hash preimage.
#[derive(Clone, Copy, Debug, PartialEq, Eq)]
pub enum HashIdPreimage {
    ContractId(HashIdPreimageContractId),
}

/// Structural equality up to allocation: byte blobs compare by contents.
/// This is the notion of value equality all storage contracts use for
/// payloads that hold byte vectors.
pub open spec fn instance_eqv(a: ScContractInstance, b: ScContractInstance) -> bool {
    &&& a.executable == b.executable
    &&& match (a.storage, b.storage) {
        (None, None) => true,
        (Some(x), Some(y)) => x.0@ == y.0@,
        _ => false,
    }
}

/// Value equality up to allocation.
pub open spec fn scval_eqv(a: ScVal, b: ScVal) -> bool {
    match (a, b) {
        (ScVal::LedgerKeyContractInstance, ScVal::LedgerKeyContractInstance) => true,
        (ScVal::ContractInstance(x), ScVal::ContractInstance(y)) => instance_eqv(x, y),
        (ScVal::U32(x), ScVal::U32(y)) => x == y,
        _ => false,
    }
}

/// Ledger-key equality up to allocation: the lookup relation of the store.
pub open spec fn ledger_key_eqv(a: LedgerKey, b: LedgerKey) -> bool {
    match (a, b) {
        (LedgerKey::ContractData(x), LedgerKey::ContractData(y)) => x.contract == y.contract
            && scval_eqv(x.key, y.key) && x.durability == y.durability,
        (LedgerKey::ContractCode(x), LedgerKey::ContractCode(y)) => x == y,
        (LedgerKey::Account(x), LedgerKey::Account(y)) => x == y,
        (LedgerKey::Trustline(x), LedgerKey::Trustline(y)) => x == y,
        _ => false,
    }
}

/// Contract-data-entry equality up to allocation.
pub open spec fn contract_data_entry_eqv(a: ContractDataEntry, b: ContractDataEntry) -> bool {
    &&& a.contract == b.contract
    &&& scval_eqv(a.key, b.key)
    &&& scval_eqv(a.val, b.val)
    &&& a.durability == b.durability
    &&& a.ext == b.ext
}

/// Code-entry equality up to allocation.
pub open spec fn code_entry_eqv(a: ContractCodeEntry, b: ContractCodeEntry) -> bool {
    a.ext == b.ext && a.hash == b.hash && a.code@ == b.code@
}

/// Account-entry equality up to allocation.
pub open spec fn account_entry_eqv(a: AccountEntry, b: AccountEntry) -> bool {
    a.account_id == b.account_id && a.thresholds == b.thresholds && a.signers@ == b.signers@
}

/// Entry-payload equality up to allocation.
pub open spec fn entry_data_eqv(a: LedgerEntryData, b: LedgerEntryData) -> bool {
    match (a, b) {
        (LedgerEntryData::Account(x), LedgerEntryData::Account(y)) => account_entry_eqv(x, y),
        (LedgerEntryData::ContractData(x), LedgerEntryData::ContractData(y)) =>
            contract_data_entry_eqv(x, y),
        (LedgerEntryData::ContractCode(x), LedgerEntryData::ContractCode(y)) => code_entry_eqv(
            x,
            y,
        ),
        _ => false,
    }
}

/// Ledger-entry equality up to allocation.
pub open spec fn ledger_entry_eqv(a: LedgerEntry, b: LedgerEntry) -> bool {
    &&& a.last_modified_ledger_seq == b.last_modified_ledger_seq
    &&& entry_data_eqv(a.data, b.data)
    &&& a.ext == b.ext
}

/// Byte-array equality, decided byte by byte.
pub fn bytes_eq<const N: usize>(a: &[u8; N], b: &[u8; N]) -> (r: bool)
    ensures
        r == (*a == *b),
{
    let mut i: usize = 0;
    while i < N
        invariant
            i <= N,
            forall|j: int| 0 <= j < i ==> a@[j] == b@[j],
        decreases N - i,
    {
        if a[i] != b[i] {
            return false;
        }
        i += 1;
    }
    proof {
        assert(*a =~= *b);
    }
    true
}

/// Hash256 equality.
pub fn hash_eq(a: &Hash256, b: &Hash256) -> (r: bool)
    ensures
        r == (*a == *b),
{
    bytes_eq(&a.0, &b.0)
}

/// Address equality.
pub fn scaddress_eq(a: &ScAddress, b: &ScAddress) -> (r: bool)
    ensures
        r == (*a == *b),
{
    match (a, b) {
        (ScAddress::Account(x), ScAddress::Account(y)) => bytes_eq(&(x.0).0, &(y.0).0),
        (ScAddress::Contract(x), ScAddress::Contract(y)) => hash_eq(x, y),
        _ => false,
    }
}

/// Executable equality.
pub fn executable_eq(a: &ContractExecutable, b: &ContractExecutable) -> (r: bool)
    ensures
        r == (*a == *b),
{
    match (a, b) {
        (ContractExecutable::Wasm(x), ContractExecutable::Wasm(y)) => hash_eq(x, y),
        (ContractExecutable::Token, ContractExecutable::Token) => true,
        _ => false,
    }
}

/// Byte-vector content equality.
pub fn vec_u8_eq(a: &Vec<u8>, b: &Vec<u8>) -> (r: bool)
    ensures
        r == (a@ == b@),
{
    if a.len() != b.len() {
        return false;
    }
    let n = a.len();
    let mut i: usize = 0;
    while i < n
        invariant
            i <= n,
            n == a@.len(),
            n == b@.len(),
            forall|j: int| 0 <= j < i ==> a@[j] == b@[j],
        decreases n - i,
    {
        if a[i] != b[i] {
            return false;
        }
        i += 1;
    }
    proof {
        assert(a@ =~= b@);
    }
    true
}

/// Contract-instance content equality.
pub fn instance_eq(a: &ScContractInstance, b: &ScContractInstance) -> (r: bool)
    ensures
        r == instance_eqv(*a, *b),
{
    if !executable_eq(&a.executable, &b.executable) {
        return false;
    }
    match (&a.storage, &b.storage) {
        (None, None) => true,
        (Some(x), Some(y)) => vec_u8_eq(&x.0, &y.0),
        _ => false,
    }
}

/// Value content equality.
pub fn scval_eq(a: &ScVal, b: &ScVal) -> (r: bool)
    ensures
        r == scval_eqv(*a, *b),
{
    match (a, b) {
        (ScVal::LedgerKeyContractInstance, ScVal::LedgerKeyContractInstance) => true,
        (ScVal::ContractInstance(x), ScVal::ContractInstance(y)) => instance_eq(x, y),
        (ScVal::U32(x), ScVal::U32(y)) => *x == *y,
        _ => false,
    }
}

/// Durability equality.
pub fn durability_eq(a: &ContractDataDurability, b: &ContractDataDurability) -> (r: bool)
    ensures
        r == (*a == *b),
{
    match (a, b) {
        (ContractDataDurability::Temporary, ContractDataDurability::Temporary) => true,
        (ContractDataDurability::Persistent, ContractDataDurability::Persistent) => true,
        _ => false,
    }
}

/// Asset equality.
pub fn asset_eq(a: &TrustLineAsset, b: &TrustLineAsset) -> (r: bool)
    ensures
        r == (*a == *b),
{
    match (a, b) {
        (TrustLineAsset::Native, TrustLineAsset::Native) => true,
        (
            TrustLineAsset::CreditAlphanum4 { asset_code: ca, issuer: ia },
            TrustLineAsset::CreditAlphanum4 { asset_code: cb, issuer: ib },
        ) => {
            let r = bytes_eq(ca, cb) && bytes_eq(&(ia.0).0, &(ib.0).0);
            r
        },
        (
            TrustLineAsset::CreditAlphanum12 { asset_code: ca, issuer: ia },
            TrustLineAsset::CreditAlphanum12 { asset_code: cb, issuer: ib },
        ) => {
            let r = bytes_eq(ca, cb) && bytes_eq(&(ia.0).0, &(ib.0).0);
            r
        },
        _ => false,
    }
}

/// Ledger-key content equality: decides the lookup relation.
pub fn ledger_key_eq(a: &LedgerKey, b: &LedgerKey) -> (r: bool)
    ensures
        r == ledger_key_eqv(*a, *b),
{
    match (a, b) {
        (LedgerKey::ContractData(x), LedgerKey::ContractData(y)) => scaddress_eq(
            &x.contract,
            &y.contract,
        ) && scval_eq(&x.key, &y.key) && durability_eq(&x.durability, &y.durability),
        (LedgerKey::ContractCode(x), LedgerKey::ContractCode(y)) => hash_eq(&x.hash, &y.hash),
        (LedgerKey::Account(x), LedgerKey::Account(y)) => bytes_eq(
            &(x.account_id.0).0,
            &(y.account_id.0).0,
        ),
        (LedgerKey::Trustline(x), LedgerKey::Trustline(y)) => {
            let r = bytes_eq(&(x.account_id.0).0, &(y.account_id.0).0) && asset_eq(
                &x.asset,
                &y.asset,
            );
            r
        },
        _ => false,
    }
}

/// A verified byte-vector copy.
pub fn clone_vec_u8(v: &Vec<u8>) -> (r: Vec<u8>)
    ensures
        r@ == v@,
{
    let n = v.len();
    let mut r: Vec<u8> = Vec::new();
    let mut i: usize = 0;
    while i < n
        invariant
            i <= n,
            n == v@.len(),
            r@.len() == i,
            forall|j: int| 0 <= j < i ==> r@[j] == v@[j],
        decreases n - i,
    {
        r.push(v[i]);
        i += 1;
    }
    proof {
        assert(r@ =~= v@);
    }
    r
}

/// A verified copy of a contract instance.
pub fn clone_instance(a: &ScContractInstance) -> (r: ScContractInstance)
    ensures
        instance_eqv(r, *a),
{
    let storage: Option<ScMap> = match &a.storage {
        None => None,
        Some(m) => Some(ScMap(clone_vec_u8(&m.0))),
    };
    ScContractInstance { executable: a.executable, storage }
}

/// A verified copy of a value.
pub fn clone_scval(a: &ScVal) -> (r: ScVal)
    ensures
        scval_eqv(r, *a),
{
    match a {
        ScVal::LedgerKeyContractInstance => ScVal::LedgerKeyContractInstance,
        ScVal::ContractInstance(inst) => ScVal::ContractInstance(clone_instance(inst)),
        ScVal::U32(x) => ScVal::U32(*x),
    }
}

/// A verified copy of a ledger key.
pub fn clone_ledger_key(a: &LedgerKey) -> (r: LedgerKey)
    ensures
        ledger_key_eqv(r, *a),
{
    match a {
        LedgerKey::ContractData(x) => LedgerKey::ContractData(
            LedgerKeyContractData {
                contract: x.contract,
                key: clone_scval(&x.key),
                durability: x.durability,
            },
        ),
        LedgerKey::ContractCode(x) => LedgerKey::ContractCode(*x),
        LedgerKey::Account(x) => LedgerKey::Account(*x),
        LedgerKey::Trustline(x) => LedgerKey::Trustline(*x),
    }
}

/// A verified copy of an account entry.
pub fn clone_account_entry(a: &AccountEntry) -> (r: AccountEntry)
    ensures
        account_entry_eqv(r, *a),
{
    let n = a.signers.len();
    let mut signers: Vec<Signer> = Vec::new();
    let mut i: usize = 0;
    while i < n
        invariant
            i <= n,
            n == a.signers@.len(),
            signers@.len() == i,
            forall|j: int| 0 <= j < i ==> signers@[j] == a.signers@[j],
        decreases n - i,
    {
        signers.push(a.signers[i]);
        i += 1;
    }
    proof {
        assert(signers@ =~= a.signers@);
    }
    AccountEntry { account_id: a.account_id, thresholds: a.thresholds, signers }
}

/// A verified copy of a ledger entry.
pub fn clone_ledger_entry(a: &LedgerEntry) -> (r: LedgerEntry)
    ensures
        ledger_entry_eqv(r, *a),
{
    let data = match &a.data {
        LedgerEntryData::Account(e) => LedgerEntryData::Account(clone_account_entry(e)),
        LedgerEntryData::ContractData(e) => LedgerEntryData::ContractData(
            ContractDataEntry {
                contract: e.contract,
                key: clone_scval(&e.key),
                val: clone_scval(&e.val),
                durability: e.durability,
                ext: e.ext,
            },
        ),
        LedgerEntryData::ContractCode(e) => LedgerEntryData::ContractCode(
            ContractCodeEntry { ext: e.ext, hash: e.hash, code: clone_vec_u8(&e.code) },
        ),
    };
    LedgerEntry { last_modified_ledger_seq: a.last_modified_ledger_seq, data, ext: a.ext }
}

} // verus!

verus! {

/// Equality up to allocation is symmetric and transitive at every level
/// the storage facade compares.
pub proof fn lemma_eqv_props()
    ensures
        forall|a: ScContractInstance, b: ScContractInstance|
            #[trigger] instance_eqv(a, b) ==> instance_eqv(b, a),
        forall|a: ScContractInstance, b: ScContractInstance, c: ScContractInstance|
            #[trigger] instance_eqv(a, b) && #[trigger] instance_eqv(b, c) ==> instance_eqv(a, c),
        forall|a: ScVal, b: ScVal| #[trigger] scval_eqv(a, b) ==> scval_eqv(b, a),
        forall|a: ScVal, b: ScVal, c: ScVal|
            #[trigger] scval_eqv(a, b) && #[trigger] scval_eqv(b, c) ==> scval_eqv(a, c),
        forall|a: LedgerEntry, b: LedgerEntry|
            #[trigger] ledger_entry_eqv(a, b) ==> ledger_entry_eqv(b, a),
        forall|a: LedgerEntry, b: LedgerEntry, c: LedgerEntry|
            #[trigger] ledger_entry_eqv(a, b) && #[trigger] ledger_entry_eqv(b, c)
                ==> ledger_entry_eqv(a, c),
{
}

} // verus!
