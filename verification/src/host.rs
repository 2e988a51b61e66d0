//! The host: one budget, one ledger-key-addressed store, the object table,
//! and the facade operations contracts go through. Every crossing of the
//! trust boundary is priced against the budget; in this model each metered
//! heap allocation of a key or entry costs one `HostMemAlloc` charge over
//! the 32 identifier bytes it copies, each storage access one `MapEntry`
//! charge, and each object-table visit one `VisitObject` charge.

use vstd::prelude::*;

use vstd::string::StringSliceAdditionalSpecFns;

use crate::budget::{
    budget_metered, budget_metered2, budget_metered3, budget_metered5, chain2_ok, chain3_ok,
    chain5_ok, charge_error, charge_succeeds, lemma_metered_scalars, sat_sub, tracker_seeded,
    AsBudget, Budget, ContractCostType, WASMI_INSTANCES_LIMIT, WASMI_MEMORIES_LIMIT,
    WASMI_TABLES_LIMIT, WASMI_TABLE_ELEMENTS_LIMIT,
};
use crate::errors::{Error, HostError, ScErrorCode, ScErrorType};
use crate::storage::Storage;
use crate::symbol::{lex_cmp, Symbol, SymbolSmall, SymbolStr};
use crate::xdr::{
    AccountEntry, AccountId, ContractDataDurability, ContractIdPreimage, Hash256, HashIdPreimage,
    HashIdPreimageContractId, LedgerEntry, LedgerEntryData, LedgerEntryExt, LedgerKey,
    LedgerKeyAccount, LedgerKeyContractCode, LedgerKeyContractData, LedgerKeyTrustLine, ScAddress,
    ScVal, Signer, SignerKey, TrustLineAsset, Uint256, THRESHOLD_MASTER_WEIGHT,
};

verus! {

/// The ledger context a host runs under.
#[derive(Clone, Copy, Debug, PartialEq, Eq)]
pub struct LedgerInfo {
    /// The network identifier every contract-id preimage is bound to.
    pub network_id: [u8; 32],
    /// The expiration ledger newly created persistent entries get.
    pub min_persistent_entry_expiration: u32,
    /// The expiration ledger newly created temporary entries get.
    pub min_temp_entry_expiration: u32,
}

/// A handle to an address held in the host object table.
#[derive(Clone, Copy, Debug, PartialEq, Eq, Structural)]
pub struct AddressObject(pub u32);

/// The host object table: symbol bytes and addresses referenced by handle.
#[derive(Clone, Debug)]
pub struct HostObjects {
    pub symbols: Vec<Vec<u8>>,
    pub addresses: Vec<ScAddress>,
}

/// The memory-growth refusal reported back to the engine.
#[derive(Clone, Copy, Debug, PartialEq, Eq, Structural)]
pub enum MemoryError {
    OutOfBoundsGrowth,
}

/// The table-growth refusal reported back to the engine.
#[derive(Clone, Copy, Debug, PartialEq, Eq, Structural)]
pub enum TableError {
    GrowOutOfBounds { maximum: u32, current: u32, delta: u32 },
}

/// The host.
#[derive(Clone, Debug)]
pub struct Host {
    pub budget: Budget,
    pub storage: Storage,
    pub ledger: LedgerInfo,
    pub objects: HostObjects,
}

impl AsBudget for Host {
    fn as_budget(&self) -> &Budget {
        &self.budget
    }
}

impl Host {
    /// A fresh host over the given ledger context: default budget, empty
    /// storage, empty object table.
    pub fn new(ledger: LedgerInfo) -> (r: Host)
        ensures
            crate::budget::is_default_budget(r.budget.0),
            r.storage@.len() == 0,
            r.storage.wf(),
            r.ledger == ledger,
            r.objects.symbols@.len() == 0,
            r.objects.addresses@.len() == 0,
    {
        Host {
            budget: Budget::default(),
            storage: Storage::new(),
            ledger,
            objects: HostObjects { symbols: Vec::new(), addresses: Vec::new() },
        }
    }

    /// The expiration ledger a newly created entry of the given durability
    /// receives.
    pub fn get_min_expiration_ledger(&self, durability: ContractDataDurability) -> (r: u32)
        ensures
            r == if durability is Persistent {
                self.ledger.min_persistent_entry_expiration
            } else {
                self.ledger.min_temp_entry_expiration
            },
    {
        match durability {
            ContractDataDurability::Persistent => self.ledger.min_persistent_entry_expiration,
            ContractDataDurability::Temporary => self.ledger.min_temp_entry_expiration,
        }
    }

    /// Builds the ledger key of a contract's instance entry: the reserved
    /// instance key under the contract's address, persistent. Charges the
    /// metered allocation of the key.
    pub fn contract_instance_ledger_key(&mut self, contract_id: &Hash256) -> (r: Result<
        LedgerKey,
        HostError,
    >)
        requires
            old(self).budget.0.wf(),
            old(self).budget.0.covers(ContractCostType::HostMemAlloc),
        ensures
            final(self).storage == old(self).storage,
            final(self).ledger == old(self).ledger,
            final(self).objects == old(self).objects,
            budget_metered(
                old(self).budget,
                final(self).budget,
                ContractCostType::HostMemAlloc,
                1,
                Some(32u64),
            ),
            charge_succeeds(old(self).budget.0, ContractCostType::HostMemAlloc, 1, Some(32u64))
                ==> r == Ok::<LedgerKey, HostError>(
                LedgerKey::ContractData(
                    LedgerKeyContractData {
                        contract: ScAddress::Contract(*contract_id),
                        key: ScVal::LedgerKeyContractInstance,
                        durability: ContractDataDurability::Persistent,
                    },
                ),
            ),
            !charge_succeeds(old(self).budget.0, ContractCostType::HostMemAlloc, 1, Some(32u64))
                ==> r == Err::<LedgerKey, HostError>(
                charge_error(old(self).budget.0, ContractCostType::HostMemAlloc, 1, Some(32u64)),
            ),
    {
        match self.budget.charge(ContractCostType::HostMemAlloc, Some(32)) {
            Ok(u) => u,
            Err(e) => {
                return Err(e);
            },
        };
        Ok(
            LedgerKey::ContractData(
                LedgerKeyContractData {
                    contract: ScAddress::Contract(*contract_id),
                    key: ScVal::LedgerKeyContractInstance,
                    durability: ContractDataDurability::Persistent,
                },
            ),
        )
    }

    /// Builds the ledger key of a WASM blob's code entry. Charges the
    /// metered allocation of the key.
    pub fn contract_code_ledger_key(&mut self, wasm_hash: &Hash256) -> (r: Result<
        LedgerKey,
        HostError,
    >)
        requires
            old(self).budget.0.wf(),
            old(self).budget.0.covers(ContractCostType::HostMemAlloc),
        ensures
            final(self).storage == old(self).storage,
            final(self).ledger == old(self).ledger,
            final(self).objects == old(self).objects,
            budget_metered(
                old(self).budget,
                final(self).budget,
                ContractCostType::HostMemAlloc,
                1,
                Some(32u64),
            ),
            charge_succeeds(old(self).budget.0, ContractCostType::HostMemAlloc, 1, Some(32u64))
                ==> r == Ok::<LedgerKey, HostError>(
                LedgerKey::ContractCode(LedgerKeyContractCode { hash: *wasm_hash }),
            ),
            !charge_succeeds(old(self).budget.0, ContractCostType::HostMemAlloc, 1, Some(32u64))
                ==> r == Err::<LedgerKey, HostError>(
                charge_error(old(self).budget.0, ContractCostType::HostMemAlloc, 1, Some(32u64)),
            ),
    {
        match self.budget.charge(ContractCostType::HostMemAlloc, Some(32)) {
            Ok(u) => u,
            Err(e) => {
                return Err(e);
            },
        };
        Ok(LedgerKey::ContractCode(LedgerKeyContractCode { hash: *wasm_hash }))
    }

    /// Builds the ledger key of an account entry. Charges the metered
    /// allocation of the key.
    pub fn to_account_key(&mut self, account_id: AccountId) -> (r: Result<LedgerKey, HostError>)
        requires
            old(self).budget.0.wf(),
            old(self).budget.0.covers(ContractCostType::HostMemAlloc),
        ensures
            final(self).storage == old(self).storage,
            final(self).ledger == old(self).ledger,
            final(self).objects == old(self).objects,
            budget_metered(
                old(self).budget,
                final(self).budget,
                ContractCostType::HostMemAlloc,
                1,
                Some(32u64),
            ),
            charge_succeeds(old(self).budget.0, ContractCostType::HostMemAlloc, 1, Some(32u64))
                ==> r == Ok::<LedgerKey, HostError>(
                LedgerKey::Account(LedgerKeyAccount { account_id }),
            ),
            !charge_succeeds(old(self).budget.0, ContractCostType::HostMemAlloc, 1, Some(32u64))
                ==> r == Err::<LedgerKey, HostError>(
                charge_error(old(self).budget.0, ContractCostType::HostMemAlloc, 1, Some(32u64)),
            ),
    {
        match self.budget.charge(ContractCostType::HostMemAlloc, Some(32)) {
            Ok(u) => u,
            Err(e) => {
                return Err(e);
            },
        };
        Ok(LedgerKey::Account(LedgerKeyAccount { account_id }))
    }

    /// Builds the ledger key of a trustline entry. Charges the metered
    /// allocation of the key.
    pub fn to_trustline_key(&mut self, account_id: AccountId, asset: TrustLineAsset) -> (r: Result<
        LedgerKey,
        HostError,
    >)
        requires
            old(self).budget.0.wf(),
            old(self).budget.0.covers(ContractCostType::HostMemAlloc),
        ensures
            final(self).storage == old(self).storage,
            final(self).ledger == old(self).ledger,
            final(self).objects == old(self).objects,
            budget_metered(
                old(self).budget,
                final(self).budget,
                ContractCostType::HostMemAlloc,
                1,
                Some(32u64),
            ),
            charge_succeeds(old(self).budget.0, ContractCostType::HostMemAlloc, 1, Some(32u64))
                ==> r == Ok::<LedgerKey, HostError>(
                LedgerKey::Trustline(LedgerKeyTrustLine { account_id, asset }),
            ),
            !charge_succeeds(old(self).budget.0, ContractCostType::HostMemAlloc, 1, Some(32u64))
                ==> r == Err::<LedgerKey, HostError>(
                charge_error(old(self).budget.0, ContractCostType::HostMemAlloc, 1, Some(32u64)),
            ),
    {
        match self.budget.charge(ContractCostType::HostMemAlloc, Some(32)) {
            Ok(u) => u,
            Err(e) => {
                return Err(e);
            },
        };
        Ok(LedgerKey::Trustline(LedgerKeyTrustLine { account_id, asset }))
    }

    /// Wraps a four-character asset code and issuer as a trustline asset.
    pub fn create_asset_4(&self, asset_code: [u8; 4], issuer: AccountId) -> (r: TrustLineAsset)
        ensures
            r == (TrustLineAsset::CreditAlphanum4 { asset_code, issuer }),
    {
        TrustLineAsset::CreditAlphanum4 { asset_code, issuer }
    }

    /// Wraps a twelve-character asset code and issuer as a trustline asset.
    pub fn create_asset_12(&self, asset_code: [u8; 12], issuer: AccountId) -> (r: TrustLineAsset)
        ensures
            r == (TrustLineAsset::CreditAlphanum12 { asset_code, issuer }),
    {
        TrustLineAsset::CreditAlphanum12 { asset_code, issuer }
    }

    /// Wraps entry data as a fresh ledger entry; the modification sequence
    /// is zero until the ledger commits it. Charges the metered allocation
    /// of the entry.
    pub fn ledger_entry_from_data(&mut self, data: LedgerEntryData) -> (r: Result<
        LedgerEntry,
        HostError,
    >)
        requires
            old(self).budget.0.wf(),
            old(self).budget.0.covers(ContractCostType::HostMemAlloc),
        ensures
            final(self).storage == old(self).storage,
            final(self).ledger == old(self).ledger,
            final(self).objects == old(self).objects,
            budget_metered(
                old(self).budget,
                final(self).budget,
                ContractCostType::HostMemAlloc,
                1,
                Some(32u64),
            ),
            charge_succeeds(old(self).budget.0, ContractCostType::HostMemAlloc, 1, Some(32u64))
                ==> (r matches Ok(e) && e == (LedgerEntry {
                last_modified_ledger_seq: 0,
                data: data,
                ext: LedgerEntryExt::V0,
            })),
            !charge_succeeds(old(self).budget.0, ContractCostType::HostMemAlloc, 1, Some(32u64))
                ==> r == Err::<LedgerEntry, HostError>(
                charge_error(old(self).budget.0, ContractCostType::HostMemAlloc, 1, Some(32u64)),
            ),
    {
        match self.budget.charge(ContractCostType::HostMemAlloc, Some(32)) {
            Ok(u) => u,
            Err(e) => {
                return Err(e);
            },
        };
        Ok(LedgerEntry { last_modified_ledger_seq: 0, data, ext: LedgerEntryExt::V0 })
    }

    /// The contract identifier behind an address; account addresses are not
    /// contracts and are rejected with `(Object, InvalidInput)`.
    pub fn contract_id_from_scaddress(&self, address: ScAddress) -> (r: Result<Hash256, HostError>)
        ensures
            address matches ScAddress::Contract(id) ==> r == Ok::<Hash256, HostError>(id),
            address matches ScAddress::Account(_) ==> r == Err::<Hash256, HostError>(
                Error { error_type: ScErrorType::Object, code: ScErrorCode::InvalidInput },
            ),
    {
        match address {
            ScAddress::Account(_) => Err(
                Error::from_type_and_code(ScErrorType::Object, ScErrorCode::InvalidInput),
            ),
            ScAddress::Contract(contract_id) => Ok(contract_id),
        }
    }

    /// The contract identifier behind an address object. Charges one
    /// object-table visit; an unknown handle fails with
    /// `(Object, MissingValue)`.
    pub fn contract_id_from_address(&mut self, address: AddressObject) -> (r: Result<
        Hash256,
        HostError,
    >)
        requires
            old(self).budget.0.wf(),
            old(self).budget.0.covers(ContractCostType::VisitObject),
        ensures
            final(self).storage == old(self).storage,
            final(self).ledger == old(self).ledger,
            final(self).objects == old(self).objects,
            budget_metered(
                old(self).budget,
                final(self).budget,
                ContractCostType::VisitObject,
                1,
                None,
            ),
            charge_succeeds(old(self).budget.0, ContractCostType::VisitObject, 1, None) ==> r == (
            if address.0 < old(self).objects.addresses@.len() {
                match old(self).objects.addresses@[address.0 as int] {
                    ScAddress::Contract(id) => Ok::<Hash256, HostError>(id),
                    ScAddress::Account(_) => Err::<Hash256, HostError>(
                        Error { error_type: ScErrorType::Object, code: ScErrorCode::InvalidInput },
                    ),
                }
            } else {
                Err::<Hash256, HostError>(
                    Error { error_type: ScErrorType::Object, code: ScErrorCode::MissingValue },
                )
            }),
            !charge_succeeds(old(self).budget.0, ContractCostType::VisitObject, 1, None) ==> r
                == Err::<Hash256, HostError>(
                charge_error(old(self).budget.0, ContractCostType::VisitObject, 1, None),
            ),
    {
        match self.budget.charge(ContractCostType::VisitObject, None) {
            Ok(u) => u,
            Err(e) => {
                return Err(e);
            },
        };
        let idx = address.0 as usize;
        if idx >= self.objects.addresses.len() {
            return Err(Error::from_type_and_code(ScErrorType::Object, ScErrorCode::MissingValue));
        }
        let addr = self.objects.addresses[idx];
        self.contract_id_from_scaddress(addr)
    }

    /// Binds a contract-id preimage to this network. Charges the metered
    /// copy of the 32-byte network identifier.
    pub fn get_full_contract_id_preimage(&mut self, init_preimage: ContractIdPreimage) -> (r:
        Result<HashIdPreimage, HostError>)
        requires
            old(self).budget.0.wf(),
            old(self).budget.0.covers(ContractCostType::HostMemCpy),
        ensures
            final(self).storage == old(self).storage,
            final(self).ledger == old(self).ledger,
            final(self).objects == old(self).objects,
            budget_metered(
                old(self).budget,
                final(self).budget,
                ContractCostType::HostMemCpy,
                1,
                Some(32u64),
            ),
            charge_succeeds(old(self).budget.0, ContractCostType::HostMemCpy, 1, Some(32u64))
                ==> r == Ok::<HashIdPreimage, HostError>(
                HashIdPreimage::ContractId(
                    HashIdPreimageContractId {
                        network_id: Hash256(old(self).ledger.network_id),
                        contract_id_preimage: init_preimage,
                    },
                ),
            ),
            !charge_succeeds(old(self).budget.0, ContractCostType::HostMemCpy, 1, Some(32u64))
                ==> r == Err::<HashIdPreimage, HostError>(
                charge_error(old(self).budget.0, ContractCostType::HostMemCpy, 1, Some(32u64)),
            ),
    {
        match self.budget.charge(ContractCostType::HostMemCpy, Some(32)) {
            Ok(u) => u,
            Err(e) => {
                return Err(e);
            },
        };
        Ok(
            HashIdPreimage::ContractId(
                HashIdPreimageContractId {
                    network_id: Hash256(self.ledger.network_id),
                    contract_id_preimage: init_preimage,
                },
            ),
        )
    }

    /// Notifies the host that the engine wants to grow linear memory. The
    /// growth is denied when the desired size exceeds the remaining memory
    /// budget or the declared maximum; otherwise the grown bytes are
    /// bulk-charged as engine memory fuel, and any charging failure also
    /// surfaces as an out-of-bounds growth.
    pub fn memory_growing(&mut self, current: usize, desired: usize, maximum: Option<usize>) -> (r:
        Result<bool, MemoryError>)
        requires
            old(self).budget.0.wf(),
            old(self).budget.0.covers(ContractCostType::WasmMemAlloc),
        ensures
            final(self).storage == old(self).storage,
            final(self).ledger == old(self).ledger,
            final(self).objects == old(self).objects,
            ({
                let allow = desired as u64 <= sat_sub(
                    old(self).budget.0.mem_bytes.limit,
                    old(self).budget.0.mem_bytes.total_count,
                ) && (maximum matches Some(m) ==> desired <= m);
                let delta = sat_sub(desired as u64, current as u64);
                if !allow {
                    &&& *final(self) == *old(self)
                    &&& r == Err::<bool, MemoryError>(MemoryError::OutOfBoundsGrowth)
                } else {
                    &&& budget_metered(
                        old(self).budget,
                        final(self).budget,
                        ContractCostType::WasmMemAlloc,
                        delta,
                        None,
                    )
                    &&& r == if charge_succeeds(
                        old(self).budget.0,
                        ContractCostType::WasmMemAlloc,
                        delta,
                        None,
                    ) {
                        Ok::<bool, MemoryError>(true)
                    } else {
                        Err::<bool, MemoryError>(MemoryError::OutOfBoundsGrowth)
                    }
                }
            }),
    {
        let host_limit = self.budget.0.mem_bytes.get_remaining();
        let allow = if desired as u64 > host_limit {
            false
        } else {
            match maximum {
                Some(max) => desired <= max,
                None => true,
            }
        };
        if allow {
            let delta = (desired as u64).saturating_sub(current as u64);
            match self.budget.bulk_charge(ContractCostType::WasmMemAlloc, delta, None) {
                Ok(_) => Ok(true),
                Err(_) => Err(MemoryError::OutOfBoundsGrowth),
            }
        } else {
            Err(MemoryError::OutOfBoundsGrowth)
        }
    }

    /// Notifies the host that the engine wants to grow a table. Growth is
    /// free but capped by the fixed element limit and the declared maximum.
    pub fn table_growing(&mut self, current: u32, desired: u32, maximum: Option<u32>) -> (r: Result<
        bool,
        TableError,
    >)
        ensures
            *final(self) == *old(self),
            ({
                let allow = desired <= WASMI_TABLE_ELEMENTS_LIMIT && (maximum matches Some(m)
                    ==> desired <= m);
                if allow {
                    r == Ok::<bool, TableError>(true)
                } else {
                    r == Err::<bool, TableError>(
                        TableError::GrowOutOfBounds {
                            maximum: match maximum {
                                Some(m) => m,
                                None => u32::MAX,
                            },
                            current,
                            delta: (if desired >= current {
                                (desired - current) as u32
                            } else {
                                0u32
                            }),
                        },
                    )
                }
            }),
    {
        let allow = if desired > WASMI_TABLE_ELEMENTS_LIMIT {
            false
        } else {
            match maximum {
                Some(max) => desired <= max,
                None => true,
            }
        };
        if allow {
            Ok(allow)
        } else {
            Err(
                TableError::GrowOutOfBounds {
                    maximum: match maximum {
                        Some(m) => m,
                        None => u32::MAX,
                    },
                    current,
                    delta: desired.saturating_sub(current),
                },
            )
        }
    }

    /// The fixed instance count reported to the engine.
    pub fn instances(&self) -> (r: usize)
        ensures
            r == WASMI_INSTANCES_LIMIT,
    {
        WASMI_INSTANCES_LIMIT
    }

    /// The fixed table count reported to the engine.
    pub fn tables(&self) -> (r: usize)
        ensures
            r == WASMI_TABLES_LIMIT,
    {
        WASMI_TABLES_LIMIT
    }

    /// The fixed memory count reported to the engine.
    pub fn memories(&self) -> (r: usize)
        ensures
            r == WASMI_MEMORIES_LIMIT,
    {
        WASMI_MEMORIES_LIMIT
    }
}

} // verus!

verus! {

/// The contract instance held by a contract-data ledger entry, if that is
/// what the entry holds.
pub open spec fn instance_of_entry(e: LedgerEntry) -> Option<crate::xdr::ScContractInstance> {
    match e.data {
        LedgerEntryData::ContractData(cd) => match cd.val {
            ScVal::ContractInstance(i) => Some(i),
            _ => None,
        },
        _ => None,
    }
}

/// The ledger key of a WASM blob's code entry, as a value.
pub open spec fn contract_code_key(h: Hash256) -> LedgerKey {
    LedgerKey::ContractCode(LedgerKeyContractCode { hash: h })
}

/// The ledger key of a contract's instance entry, as a value.
pub open spec fn contract_instance_key(id: Hash256) -> LedgerKey {
    LedgerKey::ContractData(
        LedgerKeyContractData {
            contract: ScAddress::Contract(id),
            key: ScVal::LedgerKeyContractInstance,
            durability: ContractDataDurability::Persistent,
        },
    )
}

/// On a seeded tracker, a charge whose input presence matches the cost
/// type's fixed semantics always passes the tracker check.
pub proof fn lemma_seeded_input_ok(b: crate::budget::BudgetImpl, ty: ContractCostType, input: Option<u64>)
    requires
        tracker_seeded(b),
        (input is Some) == ty.input_defined_spec(),
    ensures
        crate::budget::tracker_input_ok(crate::budget::slot_of(b, ty).1, input),
{
    crate::budget::lemma_cost_type_index_lt(ty);
}

impl Host {
    /// Fetches a contract instance from storage: the entry the key
    /// addresses must be a contract-data entry holding an instance, else
    /// the storage is corrupt and `(Storage, InternalError)` is reported.
    /// Charges one storage access.
    pub fn retrieve_contract_instance_from_storage(&mut self, key: &LedgerKey) -> (r: Result<
        crate::xdr::ScContractInstance,
        HostError,
    >)
        requires
            old(self).budget.0.wf(),
            old(self).budget.0.covers(ContractCostType::MapEntry),
        ensures
            final(self).storage == old(self).storage,
            final(self).ledger == old(self).ledger,
            final(self).objects == old(self).objects,
            budget_metered(
                old(self).budget,
                final(self).budget,
                ContractCostType::MapEntry,
                1,
                None,
            ),
            !charge_succeeds(old(self).budget.0, ContractCostType::MapEntry, 1, None) ==> r
                == Err::<crate::xdr::ScContractInstance, HostError>(
                charge_error(old(self).budget.0, ContractCostType::MapEntry, 1, None),
            ),
            charge_succeeds(old(self).budget.0, ContractCostType::MapEntry, 1, None) ==> {
                if crate::storage::has_key(old(self).storage@, *key) {
                    let e = old(self).storage@[crate::storage::key_index(
                        old(self).storage@,
                        *key,
                    )].entry;
                    match instance_of_entry(e) {
                        Some(i) => r matches Ok(ri) && crate::xdr::instance_eqv(ri, i),
                        None => r == Err::<crate::xdr::ScContractInstance, HostError>(
                            Error {
                                error_type: ScErrorType::Storage,
                                code: ScErrorCode::InternalError,
                            },
                        ),
                    }
                } else {
                    r == Err::<crate::xdr::ScContractInstance, HostError>(
                        Error { error_type: ScErrorType::Storage, code: ScErrorCode::MissingValue },
                    )
                }
            },
    {
        let entry = match self.storage.get(key, &mut self.budget) {
            Ok(e) => e,
            Err(e) => {
                return Err(e);
            },
        };
        match entry.data {
            LedgerEntryData::ContractData(cd) => match cd.val {
                ScVal::ContractInstance(inst) => Ok(inst),
                _ => Err(
                    Error::from_type_and_code(ScErrorType::Storage, ScErrorCode::InternalError),
                ),
            },
            _ => Err(Error::from_type_and_code(ScErrorType::Storage, ScErrorCode::InternalError)),
        }
    }

    /// Whether the code entry of a WASM hash exists. Charges the metered
    /// key allocation and one storage access.
    pub fn wasm_exists(&mut self, wasm_hash: &Hash256) -> (r: Result<bool, HostError>)
        requires
            old(self).budget.0.wf(),
            old(self).budget.0.covers(ContractCostType::HostMemAlloc),
            old(self).budget.0.covers(ContractCostType::MapEntry),
            tracker_seeded(old(self).budget.0),
        ensures
            final(self).storage == old(self).storage,
            final(self).ledger == old(self).ledger,
            final(self).objects == old(self).objects,
            budget_metered2(
                old(self).budget,
                final(self).budget,
                (ContractCostType::HostMemAlloc, 1u64, Some(32u64)),
                (ContractCostType::MapEntry, 1u64, None),
            ) || budget_metered(
                old(self).budget,
                final(self).budget,
                ContractCostType::HostMemAlloc,
                1,
                Some(32u64),
            ),
            chain2_ok(
                old(self).budget.0,
                (ContractCostType::HostMemAlloc, 1u64, Some(32u64)),
                (ContractCostType::MapEntry, 1u64, None),
            ) ==> r == Ok::<bool, HostError>(
                crate::storage::has_key(old(self).storage@, contract_code_key(*wasm_hash)),
            ),
            !chain2_ok(
                old(self).budget.0,
                (ContractCostType::HostMemAlloc, 1u64, Some(32u64)),
                (ContractCostType::MapEntry, 1u64, None),
            ) ==> r == Err::<bool, HostError>(
                Error { error_type: ScErrorType::Budget, code: ScErrorCode::ExceededLimit },
            ),
    {
        let ghost pre = *old(self);
        let key = match self.contract_code_ledger_key(wasm_hash) {
            Ok(k) => k,
            Err(e) => {
                proof {
                    lemma_seeded_input_ok(
                        pre.budget.0,
                        ContractCostType::HostMemAlloc,
                        Some(32u64),
                    );
                    lemma_seeded_input_ok(pre.budget.0, ContractCostType::MapEntry, None);
                }
                return Err(e);
            },
        };
        let ghost mid = self.budget;
        proof {
            lemma_metered_scalars(
                pre.budget,
                mid,
                ContractCostType::HostMemAlloc,
                1,
                Some(32u64),
            );
            lemma_seeded_input_ok(pre.budget.0, ContractCostType::HostMemAlloc, Some(32u64));
            lemma_seeded_input_ok(pre.budget.0, ContractCostType::MapEntry, None);
            lemma_seeded_input_ok(mid.0, ContractCostType::MapEntry, None);
        }
        let res = self.storage.has(&key, &mut self.budget);
        proof {
            let c1 = (ContractCostType::HostMemAlloc, 1u64, Some(32u64));
            let c2 = (ContractCostType::MapEntry, 1u64, Option::<u64>::None);
            assert(budget_metered(pre.budget, mid, c1.0, c1.1, c1.2));
            assert(budget_metered(mid, self.budget, c2.0, c2.1, c2.2));
            assert(budget_metered2(pre.budget, self.budget, c1, c2));
        }
        match res {
            Ok(b) => Ok(b),
            Err(e) => Err(e),
        }
    }
}

} // verus!

verus! {

/// The weight of the first additional signer carrying the target ed25519
/// key, if any.
pub open spec fn find_signer_weight(signers: Seq<Signer>, target: Uint256) -> Option<u32>
    decreases signers.len(),
{
    if signers.len() == 0 {
        None
    } else if signers[0].key matches SignerKey::Ed25519(k) && k == target {
        Some(signers[0].weight)
    } else {
        find_signer_weight(signers.drop_first(), target)
    }
}

/// A scan that matched the target at `i` after failing below pins the
/// found signer.
pub proof fn lemma_find_signer_of_scan(signers: Seq<Signer>, target: Uint256, i: int)
    requires
        0 <= i < signers.len(),
        signers[i].key matches SignerKey::Ed25519(k) && k == target,
        forall|j: int|
            0 <= j < i ==> !((#[trigger] signers[j]).key matches SignerKey::Ed25519(k) && k
                == target),
    ensures
        find_signer_weight(signers, target) == Some(signers[i].weight),
    decreases i,
{
    if i > 0 {
        lemma_find_signer_of_scan(signers.drop_first(), target, i - 1);
    }
}

/// A scan that never matched means no signer carries the target key.
pub proof fn lemma_find_signer_absent(signers: Seq<Signer>, target: Uint256)
    requires
        forall|j: int|
            0 <= j < signers.len() ==> !((#[trigger] signers[j]).key matches SignerKey::Ed25519(k)
                && k == target),
    ensures
        find_signer_weight(signers, target) is None,
    decreases signers.len(),
{
    if signers.len() > 0 {
        lemma_find_signer_absent(signers.drop_first(), target);
    }
}

/// The signer weight of a target key on an account: the master weight for
/// the master key, the clamped weight of the first matching additional
/// signer, and zero for a stranger.
pub open spec fn signer_weight_spec(account: AccountEntry, target: Uint256) -> u8 {
    if account.account_id == (AccountId(target)) {
        account.thresholds.0[THRESHOLD_MASTER_WEIGHT as int]
    } else {
        match find_signer_weight(account.signers@, target) {
            Some(w) => if w > 255 {
                255u8
            } else {
                w as u8
            },
            None => 0u8,
        }
    }
}

impl Host {
    /// Fetches the raw WASM bytes of a code entry. Charges the metered key
    /// allocation and one storage access; a present entry of any other kind
    /// is corrupt storage, `(Storage, InternalError)`.
    pub fn retrieve_wasm_from_storage(&mut self, wasm_hash: &Hash256) -> (r: Result<
        Vec<u8>,
        HostError,
    >)
        requires
            old(self).budget.0.wf(),
            old(self).budget.0.covers(ContractCostType::HostMemAlloc),
            old(self).budget.0.covers(ContractCostType::MapEntry),
            tracker_seeded(old(self).budget.0),
        ensures
            final(self).storage == old(self).storage,
            final(self).ledger == old(self).ledger,
            final(self).objects == old(self).objects,
            budget_metered2(
                old(self).budget,
                final(self).budget,
                (ContractCostType::HostMemAlloc, 1u64, Some(32u64)),
                (ContractCostType::MapEntry, 1u64, None),
            ) || budget_metered(
                old(self).budget,
                final(self).budget,
                ContractCostType::HostMemAlloc,
                1,
                Some(32u64),
            ),
            chain2_ok(
                old(self).budget.0,
                (ContractCostType::HostMemAlloc, 1u64, Some(32u64)),
                (ContractCostType::MapEntry, 1u64, None),
            ) ==> {
                let ck = contract_code_key(*wasm_hash);
                if crate::storage::has_key(old(self).storage@, ck) {
                    let e = old(self).storage@[crate::storage::key_index(
                        old(self).storage@,
                        ck,
                    )].entry;
                    match e.data {
                        LedgerEntryData::ContractCode(ce) => r matches Ok(code) && code@
                            == ce.code@,
                        _ => r == Err::<Vec<u8>, HostError>(
                            Error {
                                error_type: ScErrorType::Storage,
                                code: ScErrorCode::InternalError,
                            },
                        ),
                    }
                } else {
                    r == Err::<Vec<u8>, HostError>(
                        Error { error_type: ScErrorType::Storage, code: ScErrorCode::MissingValue },
                    )
                }
            },
            !chain2_ok(
                old(self).budget.0,
                (ContractCostType::HostMemAlloc, 1u64, Some(32u64)),
                (ContractCostType::MapEntry, 1u64, None),
            ) ==> r == Err::<Vec<u8>, HostError>(
                Error { error_type: ScErrorType::Budget, code: ScErrorCode::ExceededLimit },
            ),
    {
        let ghost pre = *old(self);
        let key = match self.contract_code_ledger_key(wasm_hash) {
            Ok(k) => k,
            Err(e) => {
                proof {
                    lemma_seeded_input_ok(
                        pre.budget.0,
                        ContractCostType::HostMemAlloc,
                        Some(32u64),
                    );
                    lemma_seeded_input_ok(pre.budget.0, ContractCostType::MapEntry, None);
                }
                return Err(e);
            },
        };
        let ghost mid = self.budget;
        proof {
            lemma_metered_scalars(
                pre.budget,
                mid,
                ContractCostType::HostMemAlloc,
                1,
                Some(32u64),
            );
            lemma_seeded_input_ok(pre.budget.0, ContractCostType::HostMemAlloc, Some(32u64));
            lemma_seeded_input_ok(pre.budget.0, ContractCostType::MapEntry, None);
            lemma_seeded_input_ok(mid.0, ContractCostType::MapEntry, None);
        }
        let res = self.storage.get(&key, &mut self.budget);
        proof {
            let c1 = (ContractCostType::HostMemAlloc, 1u64, Some(32u64));
            let c2 = (ContractCostType::MapEntry, 1u64, Option::<u64>::None);
            assert(budget_metered(pre.budget, mid, c1.0, c1.1, c1.2));
            assert(budget_metered(mid, self.budget, c2.0, c2.1, c2.2));
            assert(budget_metered2(pre.budget, self.budget, c1, c2));
        }
        let entry = match res {
            Ok(e) => e,
            Err(e) => {
                return Err(e);
            },
        };
        match entry.data {
            LedgerEntryData::ContractCode(ce) => Ok(crate::xdr::clone_vec_u8(&ce.code)),
            _ => Err(Error::from_type_and_code(ScErrorType::Storage, ScErrorCode::InternalError)),
        }
    }

    /// Loads an account entry. Charges the metered key allocation and one
    /// storage access; a present entry of any other kind is corrupt
    /// storage, `(Storage, InternalError)`.
    pub fn load_account(&mut self, account_id: AccountId) -> (r: Result<AccountEntry, HostError>)
        requires
            old(self).budget.0.wf(),
            old(self).budget.0.covers(ContractCostType::HostMemAlloc),
            old(self).budget.0.covers(ContractCostType::MapEntry),
            tracker_seeded(old(self).budget.0),
        ensures
            final(self).storage == old(self).storage,
            final(self).ledger == old(self).ledger,
            final(self).objects == old(self).objects,
            budget_metered2(
                old(self).budget,
                final(self).budget,
                (ContractCostType::HostMemAlloc, 1u64, Some(32u64)),
                (ContractCostType::MapEntry, 1u64, None),
            ) || budget_metered(
                old(self).budget,
                final(self).budget,
                ContractCostType::HostMemAlloc,
                1,
                Some(32u64),
            ),
            chain2_ok(
                old(self).budget.0,
                (ContractCostType::HostMemAlloc, 1u64, Some(32u64)),
                (ContractCostType::MapEntry, 1u64, None),
            ) ==> {
                let ak = LedgerKey::Account(LedgerKeyAccount { account_id });
                if crate::storage::has_key(old(self).storage@, ak) {
                    let e = old(self).storage@[crate::storage::key_index(
                        old(self).storage@,
                        ak,
                    )].entry;
                    match e.data {
                        LedgerEntryData::Account(ae) => r matches Ok(a)
                            && crate::xdr::account_entry_eqv(a, ae),
                        _ => r == Err::<AccountEntry, HostError>(
                            Error {
                                error_type: ScErrorType::Storage,
                                code: ScErrorCode::InternalError,
                            },
                        ),
                    }
                } else {
                    r == Err::<AccountEntry, HostError>(
                        Error { error_type: ScErrorType::Storage, code: ScErrorCode::MissingValue },
                    )
                }
            },
            !chain2_ok(
                old(self).budget.0,
                (ContractCostType::HostMemAlloc, 1u64, Some(32u64)),
                (ContractCostType::MapEntry, 1u64, None),
            ) ==> r == Err::<AccountEntry, HostError>(
                Error { error_type: ScErrorType::Budget, code: ScErrorCode::ExceededLimit },
            ),
    {
        let ghost pre = *old(self);
        let acc = match self.to_account_key(account_id) {
            Ok(k) => k,
            Err(e) => {
                proof {
                    lemma_seeded_input_ok(
                        pre.budget.0,
                        ContractCostType::HostMemAlloc,
                        Some(32u64),
                    );
                    lemma_seeded_input_ok(pre.budget.0, ContractCostType::MapEntry, None);
                }
                return Err(e);
            },
        };
        let ghost mid = self.budget;
        proof {
            lemma_metered_scalars(
                pre.budget,
                mid,
                ContractCostType::HostMemAlloc,
                1,
                Some(32u64),
            );
            lemma_seeded_input_ok(pre.budget.0, ContractCostType::HostMemAlloc, Some(32u64));
            lemma_seeded_input_ok(pre.budget.0, ContractCostType::MapEntry, None);
            lemma_seeded_input_ok(mid.0, ContractCostType::MapEntry, None);
        }
        let res = self.storage.get(&acc, &mut self.budget);
        proof {
            let c1 = (ContractCostType::HostMemAlloc, 1u64, Some(32u64));
            let c2 = (ContractCostType::MapEntry, 1u64, Option::<u64>::None);
            assert(budget_metered(pre.budget, mid, c1.0, c1.1, c1.2));
            assert(budget_metered(mid, self.budget, c2.0, c2.1, c2.2));
            assert(budget_metered2(pre.budget, self.budget, c1, c2));
        }
        let entry = match res {
            Ok(e) => e,
            Err(e) => {
                return Err(e);
            },
        };
        match entry.data {
            LedgerEntryData::Account(ae) => Ok(crate::xdr::clone_account_entry(&ae)),
            _ => Err(Error::from_type_and_code(ScErrorType::Storage, ScErrorCode::InternalError)),
        }
    }

    /// The signing weight of a target key on an account: the master weight
    /// when the target is the account's own key; otherwise the weight of
    /// the first matching additional signer, clamped at 255 (larger weights
    /// are pointless since the maximum threshold is 255); zero when the
    /// target does not sign for the account. Charges the metered copy of
    /// the 32-byte target key.
    #[verifier::loop_isolation(false)]
    pub fn get_signer_weight_from_account(
        &mut self,
        target_signer: Uint256,
        account: &AccountEntry,
    ) -> (r: Result<u8, HostError>)
        requires
            old(self).budget.0.wf(),
            old(self).budget.0.covers(ContractCostType::HostMemCpy),
        ensures
            final(self).storage == old(self).storage,
            final(self).ledger == old(self).ledger,
            final(self).objects == old(self).objects,
            budget_metered(
                old(self).budget,
                final(self).budget,
                ContractCostType::HostMemCpy,
                1,
                Some(32u64),
            ),
            charge_succeeds(old(self).budget.0, ContractCostType::HostMemCpy, 1, Some(32u64))
                ==> r == Ok::<u8, HostError>(signer_weight_spec(*account, target_signer)),
            !charge_succeeds(old(self).budget.0, ContractCostType::HostMemCpy, 1, Some(32u64))
                ==> r == Err::<u8, HostError>(
                charge_error(old(self).budget.0, ContractCostType::HostMemCpy, 1, Some(32u64)),
            ),
    {
        match self.budget.charge(ContractCostType::HostMemCpy, Some(32)) {
            Ok(u) => u,
            Err(e) => {
                return Err(e);
            },
        };
        if crate::xdr::bytes_eq(&(account.account_id.0).0, &target_signer.0) {
            proof {
                assert(account.account_id.0 =~= target_signer);
            }
            // The target is the master key: return the master weight.
            let threshold = account.thresholds.0[THRESHOLD_MASTER_WEIGHT];
            Ok(threshold)
        } else {
            // Search the additional signers for the target.
            let n = account.signers.len();
            let mut i: usize = 0;
            while i < n
                invariant
                    i <= n,
                    n == account.signers@.len(),
                    forall|j: int|
                        0 <= j < i ==> !((#[trigger] account.signers@[j]).key
                            matches SignerKey::Ed25519(k) && k == target_signer),
                decreases n - i,
            {
                let signer = &account.signers[i];
                match &signer.key {
                    SignerKey::Ed25519(this_signer) => {
                        if crate::xdr::bytes_eq(&this_signer.0, &target_signer.0) {
                            proof {
                                assert(account.signers@[i as int].key
                                    matches SignerKey::Ed25519(k) && k == target_signer);
                                lemma_find_signer_of_scan(
                                    account.signers@,
                                    target_signer,
                                    i as int,
                                );
                            }
                            // Clamp at the maximum threshold.
                            let weight = if signer.weight > 255 {
                                255u8
                            } else {
                                signer.weight as u8
                            };
                            return Ok(weight);
                        }
                    },
                    _ => {},
                }
                i += 1;
            }
            proof {
                lemma_find_signer_absent(account.signers@, target_signer);
            }
            // The target signs nothing on this account.
            Ok(0u8)
        }
    }
}

} // verus!

verus! {

impl Host {
    /// Writes a contract instance into its ledger entry. An existing entry
    /// is read, its payload replaced and re-put under its existing
    /// expiration ledger (the prior expiration is preserved); a fresh entry
    /// is created persistent with the minimum persistent expiration. An
    /// existing entry that is not a contract-data entry is corrupt storage,
    /// `(Storage, InternalError)`. Charges the existence probe, then either
    /// the read and the write, or the metered entry allocation and the
    /// write.
    pub fn store_contract_instance(
        &mut self,
        instance: crate::xdr::ScContractInstance,
        contract_id: Hash256,
        key: &LedgerKey,
    ) -> (r: Result<(), HostError>)
        requires
            old(self).budget.0.wf(),
            old(self).budget.0.covers(ContractCostType::MapEntry),
            old(self).budget.0.covers(ContractCostType::HostMemAlloc),
            tracker_seeded(old(self).budget.0),
            old(self).storage.wf(),
        ensures
            final(self).storage.wf(),
            final(self).ledger == old(self).ledger,
            final(self).objects == old(self).objects,
            ({
                let cme = (ContractCostType::MapEntry, 1u64, Option::<u64>::None);
                let ca = (ContractCostType::HostMemAlloc, 1u64, Some(32u64));
                ||| budget_metered(old(self).budget, final(self).budget, cme.0, cme.1, cme.2)
                ||| budget_metered2(old(self).budget, final(self).budget, cme, cme)
                ||| budget_metered3(old(self).budget, final(self).budget, cme, cme, cme)
                ||| budget_metered2(old(self).budget, final(self).budget, cme, ca)
                ||| budget_metered3(old(self).budget, final(self).budget, cme, ca, cme)
            }),
            ({
                let cme = (ContractCostType::MapEntry, 1u64, Option::<u64>::None);
                let ca = (ContractCostType::HostMemAlloc, 1u64, Some(32u64));
                if crate::storage::has_key(old(self).storage@, *key) {
                    let i = crate::storage::key_index(old(self).storage@, *key);
                    let e = old(self).storage@[i].entry;
                    match e.data {
                        LedgerEntryData::ContractData(cd) => {
                            &&& (chain3_ok(old(self).budget.0, cme, cme, cme) ==> {
                                &&& r == Ok::<(), HostError>(())
                                &&& final(self).storage@.len() == old(self).storage@.len()
                                &&& forall|j: int|
                                    0 <= j < old(self).storage@.len() && j != i ==> final(self).storage@[j] == old(self).storage@[j]
                                &&& crate::xdr::ledger_key_eqv(final(self).storage@[i].key, *key)
                                &&& final(self).storage@[i].expiration == old(self).storage@[i].expiration
                                &&& crate::xdr::ledger_entry_eqv(
                                    final(self).storage@[i].entry,
                                    LedgerEntry {
                                        last_modified_ledger_seq: e.last_modified_ledger_seq,
                                        data: LedgerEntryData::ContractData(
                                            crate::xdr::ContractDataEntry {
                                                contract: cd.contract,
                                                key: cd.key,
                                                val: ScVal::ContractInstance(instance),
                                                durability: cd.durability,
                                                ext: cd.ext,
                                            },
                                        ),
                                        ext: e.ext,
                                    },
                                )
                            })
                            &&& (!chain3_ok(old(self).budget.0, cme, cme, cme) ==> r == Err::<
                                (),
                                HostError,
                            >(
                                Error {
                                    error_type: ScErrorType::Budget,
                                    code: ScErrorCode::ExceededLimit,
                                },
                            ) && final(self).storage == old(self).storage)
                        },
                        _ => {
                            &&& (chain2_ok(old(self).budget.0, cme, cme) ==> r == Err::<
                                (),
                                HostError,
                            >(
                                Error {
                                    error_type: ScErrorType::Storage,
                                    code: ScErrorCode::InternalError,
                                },
                            ))
                            &&& (!chain2_ok(old(self).budget.0, cme, cme) ==> r == Err::<
                                (),
                                HostError,
                            >(
                                Error {
                                    error_type: ScErrorType::Budget,
                                    code: ScErrorCode::ExceededLimit,
                                },
                            ))
                            &&& final(self).storage == old(self).storage
                        },
                    }
                } else {
                    &&& (chain3_ok(old(self).budget.0, cme, ca, cme) ==> {
                        &&& r == Ok::<(), HostError>(())
                        &&& final(self).storage@.len() == old(self).storage@.len() + 1
                        &&& forall|j: int|
                            0 <= j < old(self).storage@.len() ==> final(self).storage@[j] == old(self).storage@[j]
                        &&& crate::xdr::ledger_key_eqv(
                            final(self).storage@[old(self).storage@.len() as int].key,
                            *key,
                        )
                        &&& crate::xdr::ledger_entry_eqv(
                            final(self).storage@[old(self).storage@.len() as int].entry,
                            LedgerEntry {
                                last_modified_ledger_seq: 0,
                                data: LedgerEntryData::ContractData(
                                    crate::xdr::ContractDataEntry {
                                        contract: ScAddress::Contract(contract_id),
                                        key: ScVal::LedgerKeyContractInstance,
                                        val: ScVal::ContractInstance(instance),
                                        durability: ContractDataDurability::Persistent,
                                        ext: crate::xdr::ExtensionPoint::V0,
                                    },
                                ),
                                ext: LedgerEntryExt::V0,
                            },
                        )
                        &&& final(self).storage@[old(self).storage@.len() as int].expiration
                            == Some(old(self).ledger.min_persistent_entry_expiration)
                    })
                    &&& (!chain3_ok(old(self).budget.0, cme, ca, cme) ==> r == Err::<
                        (),
                        HostError,
                    >(
                        Error { error_type: ScErrorType::Budget, code: ScErrorCode::ExceededLimit },
                    ) && final(self).storage == old(self).storage)
                }
            }),
    {
        let ghost pre = *old(self);
        proof {
            lemma_seeded_input_ok(pre.budget.0, ContractCostType::MapEntry, None);
            lemma_seeded_input_ok(pre.budget.0, ContractCostType::HostMemAlloc, Some(32u64));
        }
        let present = match self.storage.has(key, &mut self.budget) {
            Ok(b) => b,
            Err(e) => {
                return Err(e);
            },
        };
        let ghost b1 = self.budget;
        proof {
            lemma_metered_scalars(pre.budget, b1, ContractCostType::MapEntry, 1, None);
            lemma_seeded_input_ok(b1.0, ContractCostType::MapEntry, None);
            lemma_seeded_input_ok(b1.0, ContractCostType::HostMemAlloc, Some(32u64));
        }
        if present {
            let got = match self.storage.get_with_expiration(key, &mut self.budget) {
                Ok(p) => p,
                Err(e) => {
                    proof {
                        let cme = (ContractCostType::MapEntry, 1u64, Option::<u64>::None);
                        assert(budget_metered(pre.budget, b1, cme.0, cme.1, cme.2));
                        assert(budget_metered2(pre.budget, self.budget, cme, cme));
                    }
                    return Err(e);
                },
            };
            let ghost b2 = self.budget;
            proof {
                lemma_metered_scalars(b1, b2, ContractCostType::MapEntry, 1, None);
                lemma_seeded_input_ok(b2.0, ContractCostType::MapEntry, None);
                let cme = (ContractCostType::MapEntry, 1u64, Option::<u64>::None);
                assert(budget_metered(pre.budget, b1, cme.0, cme.1, cme.2));
                assert(budget_metered(b1, b2, cme.0, cme.1, cme.2));
                assert(budget_metered2(pre.budget, b2, cme, cme));
            }
            let current = got.0;
            let expiration_ledger = got.1;
            let seq0 = current.last_modified_ledger_seq;
            let ext0 = current.ext;
            match current.data {
                LedgerEntryData::ContractData(cd) => {
                    let new_entry = LedgerEntry {
                        last_modified_ledger_seq: seq0,
                        data: LedgerEntryData::ContractData(
                            crate::xdr::ContractDataEntry {
                                contract: cd.contract,
                                key: cd.key,
                                val: ScVal::ContractInstance(instance),
                                durability: cd.durability,
                                ext: cd.ext,
                            },
                        ),
                        ext: ext0,
                    };
                    let res = self.storage.put(key, &new_entry, expiration_ledger, &mut self.budget);
                    proof {
                        crate::xdr::lemma_eqv_props();
                        let cme = (ContractCostType::MapEntry, 1u64, Option::<u64>::None);
                        assert(budget_metered(b2, self.budget, cme.0, cme.1, cme.2));
                        assert(budget_metered2(b2, self.budget, cme, cme) || budget_metered(
                            b2,
                            self.budget,
                            cme.0,
                            cme.1,
                            cme.2,
                        ));
                        assert(budget_metered3(pre.budget, self.budget, cme, cme, cme)) by {
                            assert(budget_metered(pre.budget, b1, cme.0, cme.1, cme.2));
                            assert(budget_metered(b1, b2, cme.0, cme.1, cme.2));
                            assert(budget_metered2(b1, self.budget, cme, cme));
                        }
                    }
                    match res {
                        Ok(_) => Ok(()),
                        Err(e) => Err(e),
                    }
                },
                _ => {
                    proof {
                        let cme = (ContractCostType::MapEntry, 1u64, Option::<u64>::None);
                        assert(budget_metered2(pre.budget, self.budget, cme, cme));
                    }
                    Err(
                        Error::from_type_and_code(
                            ScErrorType::Storage,
                            ScErrorCode::InternalError,
                        ),
                    )
                },
            }
        } else {
            let data = LedgerEntryData::ContractData(
                crate::xdr::ContractDataEntry {
                    contract: ScAddress::Contract(contract_id),
                    key: ScVal::LedgerKeyContractInstance,
                    val: ScVal::ContractInstance(instance),
                    durability: ContractDataDurability::Persistent,
                    ext: crate::xdr::ExtensionPoint::V0,
                },
            );
            let exp = self.get_min_expiration_ledger(ContractDataDurability::Persistent);
            let entry = match self.ledger_entry_from_data(data) {
                Ok(e) => e,
                Err(e) => {
                    proof {
                        let cme = (ContractCostType::MapEntry, 1u64, Option::<u64>::None);
                        let ca = (ContractCostType::HostMemAlloc, 1u64, Some(32u64));
                        assert(budget_metered(pre.budget, b1, cme.0, cme.1, cme.2));
                        assert(budget_metered(b1, self.budget, ca.0, ca.1, ca.2));
                        assert(budget_metered2(pre.budget, self.budget, cme, ca));
                    }
                    return Err(e);
                },
            };
            let ghost b2 = self.budget;
            proof {
                lemma_metered_scalars(b1, b2, ContractCostType::HostMemAlloc, 1, Some(32u64));
                lemma_seeded_input_ok(b2.0, ContractCostType::MapEntry, None);
            }
            let res = self.storage.put(key, &entry, Some(exp), &mut self.budget);
            proof {
                crate::xdr::lemma_eqv_props();
                let cme = (ContractCostType::MapEntry, 1u64, Option::<u64>::None);
                let ca = (ContractCostType::HostMemAlloc, 1u64, Some(32u64));
                assert(budget_metered(pre.budget, b1, cme.0, cme.1, cme.2));
                assert(budget_metered(b1, b2, ca.0, ca.1, ca.2));
                assert(budget_metered(b2, self.budget, cme.0, cme.1, cme.2));
                assert(budget_metered2(b1, self.budget, ca, cme));
                assert(budget_metered3(pre.budget, self.budget, cme, ca, cme));
            }
            match res {
                Ok(_) => Ok(()),
                Err(e) => Err(e),
            }
        }
    }
}

} // verus!

verus! {

impl Host {
    /// Bumps the expiration of a contract's instance entry toward the
    /// watermarks and then, when the instance executes a WASM blob, bumps
    /// the blob's code entry the same way; token executables have no code
    /// to bump. Charges the metered key allocations, the bumps, and the
    /// instance read between them.
    #[verifier::rlimit(100)]
    pub fn bump_contract_instance_and_code_from_contract_id(
        &mut self,
        contract_id: &Hash256,
        low_expiration_watermark: u32,
        high_expiration_watermark: u32,
    ) -> (r: Result<(), HostError>)
        requires
            old(self).budget.0.wf(),
            old(self).budget.0.covers(ContractCostType::MapEntry),
            old(self).budget.0.covers(ContractCostType::HostMemAlloc),
            tracker_seeded(old(self).budget.0),
            old(self).storage.wf(),
        ensures
            final(self).storage.wf(),
            final(self).ledger == old(self).ledger,
            final(self).objects == old(self).objects,
            ({
                let ca = (ContractCostType::HostMemAlloc, 1u64, Some(32u64));
                let cm = (ContractCostType::MapEntry, 1u64, Option::<u64>::None);
                ||| budget_metered(old(self).budget, final(self).budget, ca.0, ca.1, ca.2)
                ||| budget_metered2(old(self).budget, final(self).budget, ca, cm)
                ||| budget_metered3(old(self).budget, final(self).budget, ca, cm, cm)
                ||| crate::budget::budget_metered4(old(self).budget, final(self).budget, ca, cm, cm, ca)
                ||| budget_metered5(old(self).budget, final(self).budget, ca, cm, cm, ca, cm)
            }),
            ({
                let ca = (ContractCostType::HostMemAlloc, 1u64, Some(32u64));
                let cm = (ContractCostType::MapEntry, 1u64, Option::<u64>::None);
                let ikey = contract_instance_key(*contract_id);
                let lo = low_expiration_watermark;
                let hi = high_expiration_watermark;
                if !crate::storage::has_key(old(self).storage@, ikey) {
                    &&& (chain2_ok(old(self).budget.0, ca, cm) ==> r == Err::<(), HostError>(
                        Error { error_type: ScErrorType::Storage, code: ScErrorCode::MissingValue },
                    ) && final(self).storage == old(self).storage)
                    &&& (!chain2_ok(old(self).budget.0, ca, cm) ==> r == Err::<(), HostError>(
                        Error { error_type: ScErrorType::Budget, code: ScErrorCode::ExceededLimit },
                    ) && final(self).storage == old(self).storage)
                } else {
                    let i = crate::storage::key_index(old(self).storage@, ikey);
                    let e = old(self).storage@[i].entry;
                    &&& (!chain2_ok(old(self).budget.0, ca, cm) ==> r == Err::<(), HostError>(
                        Error { error_type: ScErrorType::Budget, code: ScErrorCode::ExceededLimit },
                    ) && final(self).storage == old(self).storage)
                    &&& match instance_of_entry(e) {
                        None => {
                            &&& (chain3_ok(old(self).budget.0, ca, cm, cm) ==> r == Err::<
                                (),
                                HostError,
                            >(
                                Error {
                                    error_type: ScErrorType::Storage,
                                    code: ScErrorCode::InternalError,
                                },
                            ) && crate::storage::bumped_at(
                                old(self).storage@,
                                final(self).storage@,
                                i,
                                lo,
                                hi,
                            ))
                            &&& (chain2_ok(old(self).budget.0, ca, cm) && !chain3_ok(
                                old(self).budget.0,
                                ca,
                                cm,
                                cm,
                            ) ==> r == Err::<(), HostError>(
                                Error {
                                    error_type: ScErrorType::Budget,
                                    code: ScErrorCode::ExceededLimit,
                                },
                            ) && crate::storage::bumped_at(
                                old(self).storage@,
                                final(self).storage@,
                                i,
                                lo,
                                hi,
                            ))
                        },
                        Some(inst) => match inst.executable {
                            crate::xdr::ContractExecutable::Token => {
                                &&& (chain3_ok(old(self).budget.0, ca, cm, cm) ==> r == Ok::<
                                    (),
                                    HostError,
                                >(()) && crate::storage::bumped_at(
                                    old(self).storage@,
                                    final(self).storage@,
                                    i,
                                    lo,
                                    hi,
                                ))
                                &&& (chain2_ok(old(self).budget.0, ca, cm) && !chain3_ok(
                                    old(self).budget.0,
                                    ca,
                                    cm,
                                    cm,
                                ) ==> r == Err::<(), HostError>(
                                    Error {
                                        error_type: ScErrorType::Budget,
                                        code: ScErrorCode::ExceededLimit,
                                    },
                                ) && crate::storage::bumped_at(
                                    old(self).storage@,
                                    final(self).storage@,
                                    i,
                                    lo,
                                    hi,
                                ))
                            },
                            crate::xdr::ContractExecutable::Wasm(h) => {
                                let ckey = contract_code_key(h);
                                &&& (chain2_ok(old(self).budget.0, ca, cm) && !chain5_ok(
                                    old(self).budget.0,
                                    ca,
                                    cm,
                                    cm,
                                    ca,
                                    cm,
                                ) ==> r == Err::<(), HostError>(
                                    Error {
                                        error_type: ScErrorType::Budget,
                                        code: ScErrorCode::ExceededLimit,
                                    },
                                ) && crate::storage::bumped_at(
                                    old(self).storage@,
                                    final(self).storage@,
                                    i,
                                    lo,
                                    hi,
                                ))
                                &&& (chain5_ok(old(self).budget.0, ca, cm, cm, ca, cm) ==> {
                                    if crate::storage::has_key(old(self).storage@, ckey) {
                                        let ci = crate::storage::key_index(
                                            old(self).storage@,
                                            ckey,
                                        );
                                        &&& r == Ok::<(), HostError>(())
                                        &&& final(self).storage@.len() == old(self).storage@.len()
                                        &&& forall|j: int|
                                            0 <= j < old(self).storage@.len() && j != i && j != ci
                                                ==> final(self).storage@[j] == old(self).storage@[j]
                                        &&& crate::xdr::ledger_key_eqv(
                                            final(self).storage@[i].key,
                                            old(self).storage@[i].key,
                                        )
                                        &&& crate::xdr::ledger_entry_eqv(
                                            final(self).storage@[i].entry,
                                            old(self).storage@[i].entry,
                                        )
                                        &&& final(self).storage@[i].expiration == Some(
                                            crate::storage::bumped_expiration(
                                                old(self).storage@[i].expiration,
                                                lo,
                                                hi,
                                            ),
                                        )
                                        &&& crate::xdr::ledger_key_eqv(
                                            final(self).storage@[ci].key,
                                            old(self).storage@[ci].key,
                                        )
                                        &&& crate::xdr::ledger_entry_eqv(
                                            final(self).storage@[ci].entry,
                                            old(self).storage@[ci].entry,
                                        )
                                        &&& final(self).storage@[ci].expiration == Some(
                                            crate::storage::bumped_expiration(
                                                old(self).storage@[ci].expiration,
                                                lo,
                                                hi,
                                            ),
                                        )
                                    } else {
                                        r == Err::<(), HostError>(
                                            Error {
                                                error_type: ScErrorType::Storage,
                                                code: ScErrorCode::MissingValue,
                                            },
                                        ) && crate::storage::bumped_at(
                                            old(self).storage@,
                                            final(self).storage@,
                                            i,
                                            lo,
                                            hi,
                                        )
                                    }
                                })
                            },
                        },
                    }
                }
            }),
    {
        let ghost pre = *old(self);
        proof {
            lemma_seeded_input_ok(pre.budget.0, ContractCostType::MapEntry, None);
            lemma_seeded_input_ok(pre.budget.0, ContractCostType::HostMemAlloc, Some(32u64));
            crate::storage::lemma_key_index(pre.storage@, contract_instance_key(*contract_id));
        }
        let key = match self.contract_instance_ledger_key(contract_id) {
            Ok(k) => k,
            Err(e) => {
                return Err(e);
            },
        };
        let ghost b1 = self.budget;
        proof {
            lemma_metered_scalars(pre.budget, b1, ContractCostType::HostMemAlloc, 1, Some(32u64));
            lemma_seeded_input_ok(b1.0, ContractCostType::MapEntry, None);
        }
        match self.storage.bump(&key, low_expiration_watermark, high_expiration_watermark, &mut self.budget) {
            Ok(u) => u,
            Err(e) => {
                proof {
                    let ca = (ContractCostType::HostMemAlloc, 1u64, Some(32u64));
                    let cm = (ContractCostType::MapEntry, 1u64, Option::<u64>::None);
                    assert(budget_metered(pre.budget, b1, ca.0, ca.1, ca.2));
                    assert(budget_metered(b1, self.budget, cm.0, cm.1, cm.2));
                    assert(budget_metered2(pre.budget, self.budget, ca, cm));
                }
                return Err(e);
            },
        };
        let ghost s1 = self.storage;
        let ghost b2 = self.budget;
        proof {
            lemma_metered_scalars(b1, b2, ContractCostType::MapEntry, 1, None);
            lemma_seeded_input_ok(b2.0, ContractCostType::MapEntry, None);
            crate::storage::lemma_ledger_key_eqv_props();
            assert forall|j: int|
                0 <= j < pre.storage@.len() implies crate::xdr::ledger_key_eqv(
                #[trigger] s1@[j].key,
                pre.storage@[j].key,
            ) by {}
            crate::storage::lemma_key_index_eqv_stable(
                pre.storage@,
                s1@,
                contract_instance_key(*contract_id),
            );
        }
        let inst = match self.retrieve_contract_instance_from_storage(&key) {
            Ok(i) => i,
            Err(e) => {
                proof {
                    let ca = (ContractCostType::HostMemAlloc, 1u64, Some(32u64));
                    let cm = (ContractCostType::MapEntry, 1u64, Option::<u64>::None);
                    assert(budget_metered(pre.budget, b1, ca.0, ca.1, ca.2));
                    assert(budget_metered(b1, b2, cm.0, cm.1, cm.2));
                    assert(budget_metered(b2, self.budget, cm.0, cm.1, cm.2));
                    assert(budget_metered2(b1, self.budget, cm, cm));
                    assert(budget_metered3(pre.budget, self.budget, ca, cm, cm));
                }
                return Err(e);
            },
        };
        let ghost b3 = self.budget;
        proof {
            lemma_metered_scalars(b2, b3, ContractCostType::MapEntry, 1, None);
            lemma_seeded_input_ok(b3.0, ContractCostType::MapEntry, None);
            lemma_seeded_input_ok(b3.0, ContractCostType::HostMemAlloc, Some(32u64));
            crate::xdr::lemma_eqv_props();
        }
        match inst.executable {
            crate::xdr::ContractExecutable::Wasm(wasm_hash) => {
                let ckey = match self.contract_code_ledger_key(&wasm_hash) {
                    Ok(k) => k,
                    Err(e) => {
                        proof {
                            let ca = (ContractCostType::HostMemAlloc, 1u64, Some(32u64));
                            let cm = (ContractCostType::MapEntry, 1u64, Option::<u64>::None);
                            assert(budget_metered(pre.budget, b1, ca.0, ca.1, ca.2));
                            assert(budget_metered(b1, b2, cm.0, cm.1, cm.2));
                            assert(budget_metered(b2, b3, cm.0, cm.1, cm.2));
                            assert(budget_metered(b3, self.budget, ca.0, ca.1, ca.2));
                            assert(budget_metered3(b1, self.budget, cm, cm, ca));
                            assert(crate::budget::budget_metered4(
                                pre.budget,
                                self.budget,
                                ca,
                                cm,
                                cm,
                                ca,
                            ));
                        }
                        return Err(e);
                    },
                };
                let ghost b4 = self.budget;
                proof {
                    lemma_metered_scalars(b3, b4, ContractCostType::HostMemAlloc, 1, Some(32u64));
                    lemma_seeded_input_ok(b4.0, ContractCostType::MapEntry, None);
                    crate::storage::lemma_key_index_eqv_stable(
                        pre.storage@,
                        s1@,
                        contract_code_key(wasm_hash),
                    );
                    crate::storage::lemma_key_index(pre.storage@, contract_code_key(wasm_hash));
                }
                let res = self.storage.bump(
                    &ckey,
                    low_expiration_watermark,
                    high_expiration_watermark,
                    &mut self.budget,
                );
                proof {
                    let ca = (ContractCostType::HostMemAlloc, 1u64, Some(32u64));
                    let cm = (ContractCostType::MapEntry, 1u64, Option::<u64>::None);
                    assert(budget_metered(pre.budget, b1, ca.0, ca.1, ca.2));
                    assert(budget_metered(b1, b2, cm.0, cm.1, cm.2));
                    assert(budget_metered(b2, b3, cm.0, cm.1, cm.2));
                    assert(budget_metered(b3, b4, ca.0, ca.1, ca.2));
                    assert(budget_metered(b4, self.budget, cm.0, cm.1, cm.2));
                    assert(budget_metered2(b4, self.budget, cm, cm) || budget_metered(
                        b4,
                        self.budget,
                        cm.0,
                        cm.1,
                        cm.2,
                    ));
                    assert(budget_metered2(b3, self.budget, ca, cm));
                    assert(budget_metered3(b2, self.budget, cm, ca, cm));
                    assert(budget_metered5(pre.budget, self.budget, ca, cm, cm, ca, cm)) by {
                        assert(budget_metered(pre.budget, b1, ca.0, ca.1, ca.2));
                        assert(budget_metered(b1, b2, cm.0, cm.1, cm.2));
                        assert(budget_metered3(b2, self.budget, cm, ca, cm));
                    }
                    // The code entry, when present, sits at a different
                    // index than the instance entry: their keys are of
                    // different kinds.
                    if crate::storage::has_key(pre.storage@, contract_code_key(wasm_hash)) {
                        let i = crate::storage::key_index(
                            pre.storage@,
                            contract_instance_key(*contract_id),
                        );
                        let ci = crate::storage::key_index(
                            pre.storage@,
                            contract_code_key(wasm_hash),
                        );
                        if i == ci {
                            assert(crate::xdr::ledger_key_eqv(
                                pre.storage@[i].key,
                                contract_instance_key(*contract_id),
                            ));
                            assert(crate::xdr::ledger_key_eqv(
                                pre.storage@[ci].key,
                                contract_code_key(wasm_hash),
                            ));
                            assert(false);
                        }
                    }
                }
                match res {
                    Ok(_) => Ok(()),
                    Err(e) => Err(e),
                }
            },
            crate::xdr::ContractExecutable::Token => {
                proof {
                    let ca = (ContractCostType::HostMemAlloc, 1u64, Some(32u64));
                    let cm = (ContractCostType::MapEntry, 1u64, Option::<u64>::None);
                    assert(budget_metered(pre.budget, b1, ca.0, ca.1, ca.2));
                    assert(budget_metered(b1, b2, cm.0, cm.1, cm.2));
                    assert(budget_metered(b2, b3, cm.0, cm.1, cm.2));
                    assert(budget_metered2(b1, b3, cm, cm));
                    assert(budget_metered3(pre.budget, self.budget, ca, cm, cm));
                }
                Ok(())
            },
        }
    }
}

} // verus!

verus! {

/// Byte-wise lexicographic comparison of two byte vectors.
pub fn bytes_lex_cmp(a: &Vec<u8>, b: &Vec<u8>) -> (r: core::cmp::Ordering)
    ensures
        r == crate::symbol::lex_cmp(a@, b@),
{
    let na = a.len();
    let nb = b.len();
    let n = if na < nb {
        na
    } else {
        nb
    };
    let mut i: usize = 0;
    proof {
        assert(a@.skip(0) =~= a@);
        assert(b@.skip(0) =~= b@);
    }
    while i < n
        invariant
            i <= n,
            n == if na < nb {
                na
            } else {
                nb
            },
            na == a@.len(),
            nb == b@.len(),
            lex_cmp(a@, b@) == lex_cmp(a@.skip(i as int), b@.skip(i as int)),
        decreases n - i,
    {
        proof {
            assert(a@.skip(i as int)[0] == a@[i as int]);
            assert(b@.skip(i as int)[0] == b@[i as int]);
            assert(a@.skip(i as int).drop_first() =~= a@.skip(i as int + 1));
            assert(b@.skip(i as int).drop_first() =~= b@.skip(i as int + 1));
        }
        if a[i] < b[i] {
            return core::cmp::Ordering::Less;
        }
        if a[i] > b[i] {
            return core::cmp::Ordering::Greater;
        }
        i += 1;
    }
    proof {
        assert(a@.skip(i as int).len() == na - i);
        assert(b@.skip(i as int).len() == nb - i);
    }
    if na == nb {
        core::cmp::Ordering::Equal
    } else if na < nb {
        core::cmp::Ordering::Less
    } else {
        core::cmp::Ordering::Greater
    }
}

impl Host {
    /// Every symbol held in the object table is at most `SCSYMBOL_LIMIT`
    /// bytes of repertoire characters.
    pub open spec fn objects_wf(&self) -> bool {
        forall|i: int|
            0 <= i < self.objects.symbols@.len() ==> (#[trigger] self.objects.symbols@[i])@.len()
                <= crate::symbol::SCSYMBOL_LIMIT && (forall|j: int|
                0 <= j < self.objects.symbols@[i]@.len() ==> crate::symbol::is_symbol_char(
                    #[trigger] self.objects.symbols@[i]@[j],
                ))
    }

    /// Admits a long identifier into the object table and hands back its
    /// handle. Only repertoire characters are admitted (`(Value,
    /// InvalidInput)` otherwise) and only up to `SCSYMBOL_LIMIT` bytes
    /// (`(Object, ExceededLimit)` otherwise). Charges the metered
    /// allocation of the copied bytes.
    #[verifier::loop_isolation(false)]
    pub fn symbol_new_from_slice(&mut self, s: &str) -> (r: Result<
        crate::symbol::SymbolObject,
        HostError,
    >)
        requires
            old(self).budget.0.wf(),
            old(self).budget.0.covers(ContractCostType::HostMemAlloc),
            old(self).objects_wf(),
        ensures
            final(self).objects_wf(),
            final(self).storage == old(self).storage,
            final(self).ledger == old(self).ledger,
            final(self).objects.addresses == old(self).objects.addresses,
            budget_metered(
                old(self).budget,
                final(self).budget,
                ContractCostType::HostMemAlloc,
                1,
                Some(s.spec_bytes().len() as u64),
            ),
            !charge_succeeds(
                old(self).budget.0,
                ContractCostType::HostMemAlloc,
                1,
                Some(s.spec_bytes().len() as u64),
            ) ==> r == Err::<crate::symbol::SymbolObject, HostError>(
                charge_error(
                    old(self).budget.0,
                    ContractCostType::HostMemAlloc,
                    1,
                    Some(s.spec_bytes().len() as u64),
                ),
            ) && final(self).objects.symbols == old(self).objects.symbols,
            charge_succeeds(
                old(self).budget.0,
                ContractCostType::HostMemAlloc,
                1,
                Some(s.spec_bytes().len() as u64),
            ) ==> {
                if s.spec_bytes().len() > crate::symbol::SCSYMBOL_LIMIT {
                    r == Err::<crate::symbol::SymbolObject, HostError>(
                        Error { error_type: ScErrorType::Object, code: ScErrorCode::ExceededLimit },
                    ) && final(self).objects.symbols == old(self).objects.symbols
                } else if exists|j: int|
                    0 <= j < s.spec_bytes().len() && !crate::symbol::is_symbol_char(
                        #[trigger] s.spec_bytes()[j],
                    ) {
                    r == Err::<crate::symbol::SymbolObject, HostError>(
                        Error { error_type: ScErrorType::Value, code: ScErrorCode::InvalidInput },
                    ) && final(self).objects.symbols == old(self).objects.symbols
                } else {
                    &&& r == Ok::<crate::symbol::SymbolObject, HostError>(
                        crate::symbol::SymbolObject(old(self).objects.symbols@.len() as u32),
                    )
                    &&& final(self).objects.symbols@.len() == old(self).objects.symbols@.len() + 1
                    &&& forall|j: int|
                        0 <= j < old(self).objects.symbols@.len() ==> final(self).objects.symbols@[j] == old(self).objects.symbols@[j]
                    &&& final(self).objects.symbols@[old(self).objects.symbols@.len() as int]@
                        == s.spec_bytes()
                }
            },
    {
        let bytes = s.as_bytes();
        let blen = bytes.len();
        match self.budget.charge(ContractCostType::HostMemAlloc, Some(blen as u64)) {
            Ok(u) => u,
            Err(e) => {
                return Err(e);
            },
        };
        if blen > 32 {
            return Err(Error::from_type_and_code(ScErrorType::Object, ScErrorCode::ExceededLimit));
        }
        let mut copied: Vec<u8> = Vec::new();
        let mut i: usize = 0;
        while i < blen
            invariant
                i <= blen,
                blen == bytes@.len(),
                copied@.len() == i,
                forall|j: int| 0 <= j < i ==> copied@[j] == bytes@[j],
                forall|j: int| 0 <= j < i ==> crate::symbol::is_symbol_char(#[trigger] bytes@[j]),
            decreases blen - i,
        {
            let c = bytes[i];
            match SymbolSmall::encode_char(c as char) {
                Ok(_) => {},
                Err(_) => {
                    proof {
                        crate::symbol::lemma_code_of_byte_char(bytes@[i as int]);
                    }
                    return Err(
                        Error::from_type_and_code(ScErrorType::Value, ScErrorCode::InvalidInput),
                    );
                },
            }
            proof {
                crate::symbol::lemma_code_of_byte_char(bytes@[i as int]);
            }
            copied.push(c);
            i += 1;
        }
        let handle = self.objects.symbols.len();
        proof {
            assert(copied@ =~= bytes@);
        }
        self.objects.symbols.push(copied);
        Ok(crate::symbol::SymbolObject(handle as u32))
    }

    /// Converts a string into a symbol: identifiers of up to nine
    /// repertoire characters pack into the small form without touching the
    /// object table; longer ones go through the object table.
    pub fn symbol_from_str(&mut self, s: &str) -> (r: Result<Symbol, HostError>)
        requires
            old(self).budget.0.wf(),
            old(self).budget.0.covers(ContractCostType::HostMemAlloc),
            old(self).objects_wf(),
        ensures
            final(self).objects_wf(),
            final(self).storage == old(self).storage,
            final(self).ledger == old(self).ledger,
            final(self).objects.addresses == old(self).objects.addresses,
            (s.spec_bytes().len() <= crate::symbol::MAX_SMALL_CHARS && (forall|j: int|
                0 <= j < s.spec_bytes().len() ==> crate::symbol::is_symbol_char(
                    #[trigger] s.spec_bytes()[j],
                ))) ==> {
                &&& *final(self) == *old(self)
                &&& r matches Ok(sym) && sym matches Symbol::Small(ss) && ss.body_spec()
                    == crate::symbol::encode_bytes(s.spec_bytes())
            },
            !(s.spec_bytes().len() <= crate::symbol::MAX_SMALL_CHARS && (forall|j: int|
                0 <= j < s.spec_bytes().len() ==> crate::symbol::is_symbol_char(
                    #[trigger] s.spec_bytes()[j],
                ))) ==> {
                &&& budget_metered(
                    old(self).budget,
                    final(self).budget,
                    ContractCostType::HostMemAlloc,
                    1,
                    Some(s.spec_bytes().len() as u64),
                )
                &&& charge_succeeds(
                    old(self).budget.0,
                    ContractCostType::HostMemAlloc,
                    1,
                    Some(s.spec_bytes().len() as u64),
                ) ==> {
                    if s.spec_bytes().len() > crate::symbol::SCSYMBOL_LIMIT {
                        r == Err::<Symbol, HostError>(
                            Error {
                                error_type: ScErrorType::Object,
                                code: ScErrorCode::ExceededLimit,
                            },
                        ) && final(self).objects.symbols == old(self).objects.symbols
                    } else if exists|j: int|
                        0 <= j < s.spec_bytes().len() && !crate::symbol::is_symbol_char(
                            #[trigger] s.spec_bytes()[j],
                        ) {
                        r == Err::<Symbol, HostError>(
                            Error {
                                error_type: ScErrorType::Value,
                                code: ScErrorCode::InvalidInput,
                            },
                        ) && final(self).objects.symbols == old(self).objects.symbols
                    } else {
                        &&& r == Ok::<Symbol, HostError>(
                            Symbol::Object(
                                crate::symbol::SymbolObject(
                                    old(self).objects.symbols@.len() as u32,
                                ),
                            ),
                        )
                        &&& final(self).objects.symbols@.len() == old(self).objects.symbols@.len() + 1
                        &&& final(self).objects.symbols@[old(self).objects.symbols@.len() as int]@
                            == s.spec_bytes()
                    }
                }
            },
    {
        match SymbolSmall::try_from_str(s) {
            Ok(ss) => Ok(Symbol::Small(ss)),
            Err(_) => {
                match self.symbol_new_from_slice(s) {
                    Ok(so) => Ok(Symbol::Object(so)),
                    Err(e) => Err(e),
                }
            },
        }
    }

    /// Expands a symbol into its zero-padded byte form: small symbols are
    /// decoded in place; object symbols are copied out of the object table,
    /// charging one object-table visit. An unknown handle fails with
    /// `(Object, MissingValue)`.
    #[verifier::loop_isolation(false)]
    pub fn symbol_str_from_symbol(&mut self, sym: &Symbol) -> (r: Result<SymbolStr, HostError>)
        requires
            old(self).budget.0.wf(),
            old(self).budget.0.covers(ContractCostType::VisitObject),
            old(self).objects_wf(),
        ensures
            *final(self) == *old(self) || final(self).storage == old(self).storage && final(self).ledger == old(self).ledger && final(self).objects == old(self).objects,
            sym matches Symbol::Small(ss) ==> *final(self) == *old(self) && (r matches Ok(sstr)
                && sstr@.subrange(0, ss@.len() as int) == ss@ && crate::symbol::zero_term_len(
                sstr@,
            ) == ss@.len()),
            sym matches Symbol::Object(so) ==> {
                &&& budget_metered(
                    old(self).budget,
                    final(self).budget,
                    ContractCostType::VisitObject,
                    1,
                    None,
                )
                &&& !charge_succeeds(old(self).budget.0, ContractCostType::VisitObject, 1, None)
                    ==> r == Err::<SymbolStr, HostError>(
                    charge_error(old(self).budget.0, ContractCostType::VisitObject, 1, None),
                )
                &&& charge_succeeds(old(self).budget.0, ContractCostType::VisitObject, 1, None)
                    ==> {
                    if so.0 < old(self).objects.symbols@.len() {
                        let bytes = old(self).objects.symbols@[so.0 as int]@;
                        r matches Ok(sstr) && sstr@.subrange(0, bytes.len() as int) == bytes && (
                        forall|j: int| bytes.len() <= j < 32 ==> sstr@[j] == 0)
                    } else {
                        r == Err::<SymbolStr, HostError>(
                            Error {
                                error_type: ScErrorType::Object,
                                code: ScErrorCode::MissingValue,
                            },
                        )
                    }
                }
            },
    {
        match sym {
            Symbol::Small(ss) => Ok(ss.to_str()),
            Symbol::Object(so) => {
                match self.budget.charge(ContractCostType::VisitObject, None) {
                    Ok(u) => u,
                    Err(e) => {
                        return Err(e);
                    },
                };
                let idx = so.0 as usize;
                if idx >= self.objects.symbols.len() {
                    return Err(
                        Error::from_type_and_code(ScErrorType::Object, ScErrorCode::MissingValue),
                    );
                }
                let bytes = &self.objects.symbols[idx];
                let blen = bytes.len();
                let mut arr: [u8; 32] = [0; 32];
                let mut i: usize = 0;
                while i < blen
                    invariant
                        i <= blen,
                        blen == bytes@.len(),
                        blen <= 32,
                        arr@.len() == 32,
                        forall|j: int| 0 <= j < i ==> arr@[j] == bytes@[j],
                        forall|j: int| i <= j < 32 ==> arr@[j] == 0,
                    decreases blen - i,
                {
                    arr[i] = bytes[i];
                    i += 1;
                }
                let sstr = SymbolStr::from_bytes(arr);
                proof {
                    assert(sstr@.subrange(0, blen as int) =~= bytes@);
                }
                Ok(sstr)
            },
        }
    }

    /// Compares two symbols: small symbols sort before object symbols (the
    /// tag order of the underlying word); two small symbols compare by
    /// decoded characters; two object symbols compare by their stored
    /// bytes, charging one fixed-width memory comparison. An unknown handle
    /// fails with `(Object, MissingValue)`.
    pub fn compare_symbols(&mut self, a: &Symbol, b: &Symbol) -> (r: Result<
        core::cmp::Ordering,
        HostError,
    >)
        requires
            old(self).budget.0.wf(),
            old(self).budget.0.covers(ContractCostType::HostMemCmp),
            old(self).objects_wf(),
        ensures
            final(self).storage == old(self).storage,
            final(self).ledger == old(self).ledger,
            final(self).objects == old(self).objects,
            ({
                match (*a, *b) {
                    (Symbol::Small(x), Symbol::Small(y)) => *final(self) == *old(self) && r
                        == Ok::<core::cmp::Ordering, HostError>(lex_cmp(x@, y@)),
                    (Symbol::Small(_), Symbol::Object(_)) => *final(self) == *old(self) && r
                        == Ok::<core::cmp::Ordering, HostError>(core::cmp::Ordering::Less),
                    (Symbol::Object(_), Symbol::Small(_)) => *final(self) == *old(self) && r
                        == Ok::<core::cmp::Ordering, HostError>(core::cmp::Ordering::Greater),
                    (Symbol::Object(x), Symbol::Object(y)) => {
                        &&& budget_metered(
                            old(self).budget,
                            final(self).budget,
                            ContractCostType::HostMemCmp,
                            1,
                            Some(32u64),
                        )
                        &&& !charge_succeeds(
                            old(self).budget.0,
                            ContractCostType::HostMemCmp,
                            1,
                            Some(32u64),
                        ) ==> r == Err::<core::cmp::Ordering, HostError>(
                            charge_error(
                                old(self).budget.0,
                                ContractCostType::HostMemCmp,
                                1,
                                Some(32u64),
                            ),
                        )
                        &&& charge_succeeds(
                            old(self).budget.0,
                            ContractCostType::HostMemCmp,
                            1,
                            Some(32u64),
                        ) ==> {
                            if x.0 < old(self).objects.symbols@.len() && y.0 < old(self).objects.symbols@.len() {
                                r == Ok::<core::cmp::Ordering, HostError>(
                                    lex_cmp(
                                        old(self).objects.symbols@[x.0 as int]@,
                                        old(self).objects.symbols@[y.0 as int]@,
                                    ),
                                )
                            } else {
                                r == Err::<core::cmp::Ordering, HostError>(
                                    Error {
                                        error_type: ScErrorType::Object,
                                        code: ScErrorCode::MissingValue,
                                    },
                                )
                            }
                        }
                    },
                }
            }),
    {
        match (a, b) {
            (Symbol::Small(x), Symbol::Small(y)) => Ok(x.cmp(y)),
            (Symbol::Small(_), Symbol::Object(_)) => Ok(core::cmp::Ordering::Less),
            (Symbol::Object(_), Symbol::Small(_)) => Ok(core::cmp::Ordering::Greater),
            (Symbol::Object(x), Symbol::Object(y)) => {
                match self.budget.charge(ContractCostType::HostMemCmp, Some(32)) {
                    Ok(u) => u,
                    Err(e) => {
                        return Err(e);
                    },
                };
                let ia = x.0 as usize;
                let ib = y.0 as usize;
                if ia >= self.objects.symbols.len() || ib >= self.objects.symbols.len() {
                    return Err(
                        Error::from_type_and_code(ScErrorType::Object, ScErrorCode::MissingValue),
                    );
                }
                let res = bytes_lex_cmp(&self.objects.symbols[ia], &self.objects.symbols[ib]);
                Ok(res)
            },
        }
    }
}

} // verus!

verus! {

/// Storage round-trip, overwrite path: after a successful
/// `store_contract_instance` over an existing contract-data entry, the key
/// addresses an entry holding exactly the stored instance (so a retrieve
/// yields it back), and the entry's expiration ledger is the prior one.
pub proof fn lemma_store_retrieve_roundtrip_update(
    pre: Seq<crate::storage::StorageEntry>,
    post: Seq<crate::storage::StorageEntry>,
    key: LedgerKey,
    instance: crate::xdr::ScContractInstance,
)
    requires
        crate::storage::has_key(pre, key),
        ({
            let i = crate::storage::key_index(pre, key);
            let e = pre[i].entry;
            &&& e.data matches LedgerEntryData::ContractData(cd)
            &&& post.len() == pre.len()
            &&& forall|j: int| 0 <= j < pre.len() && j != i ==> post[j] == pre[j]
            &&& crate::xdr::ledger_key_eqv(post[i].key, key)
            &&& post[i].expiration == pre[i].expiration
            &&& crate::xdr::ledger_entry_eqv(
                post[i].entry,
                LedgerEntry {
                    last_modified_ledger_seq: e.last_modified_ledger_seq,
                    data: LedgerEntryData::ContractData(
                        crate::xdr::ContractDataEntry {
                            contract: e.data->ContractData_0.contract,
                            key: e.data->ContractData_0.key,
                            val: ScVal::ContractInstance(instance),
                            durability: e.data->ContractData_0.durability,
                            ext: e.data->ContractData_0.ext,
                        },
                    ),
                    ext: e.ext,
                },
            )
        }),
    ensures
        crate::storage::has_key(post, key),
        crate::storage::key_index(post, key) == crate::storage::key_index(pre, key),
        instance_of_entry(post[crate::storage::key_index(post, key)].entry) matches Some(ri)
            && crate::xdr::instance_eqv(ri, instance),
        post[crate::storage::key_index(post, key)].expiration == pre[crate::storage::key_index(
            pre,
            key,
        )].expiration,
{
    let i = crate::storage::key_index(pre, key);
    crate::storage::lemma_key_index(pre, key);
    crate::storage::lemma_ledger_key_eqv_props();
    crate::xdr::lemma_eqv_props();
    assert forall|j: int| 0 <= j < i implies !crate::xdr::ledger_key_eqv(post[j].key, key) by {
        assert(post[j] == pre[j]);
    }
    crate::storage::lemma_key_index_of_scan(post, key, i);
}

/// Storage round-trip, creation path: after a successful
/// `store_contract_instance` that appended a fresh entry, the key
/// addresses the appended entry and it holds exactly the stored instance.
pub proof fn lemma_store_retrieve_roundtrip_create(
    pre: Seq<crate::storage::StorageEntry>,
    post: Seq<crate::storage::StorageEntry>,
    key: LedgerKey,
    instance: crate::xdr::ScContractInstance,
    contract_id: Hash256,
    min_expiration: u32,
)
    requires
        !crate::storage::has_key(pre, key),
        post.len() == pre.len() + 1,
        forall|j: int| 0 <= j < pre.len() ==> post[j] == pre[j],
        crate::xdr::ledger_key_eqv(post[pre.len() as int].key, key),
        crate::xdr::ledger_entry_eqv(
            post[pre.len() as int].entry,
            LedgerEntry {
                last_modified_ledger_seq: 0,
                data: LedgerEntryData::ContractData(
                    crate::xdr::ContractDataEntry {
                        contract: ScAddress::Contract(contract_id),
                        key: ScVal::LedgerKeyContractInstance,
                        val: ScVal::ContractInstance(instance),
                        durability: ContractDataDurability::Persistent,
                        ext: crate::xdr::ExtensionPoint::V0,
                    },
                ),
                ext: LedgerEntryExt::V0,
            },
        ),
        post[pre.len() as int].expiration == Some(min_expiration),
    ensures
        crate::storage::has_key(post, key),
        crate::storage::key_index(post, key) == pre.len(),
        instance_of_entry(post[pre.len() as int].entry) matches Some(ri)
            && crate::xdr::instance_eqv(ri, instance),
        post[pre.len() as int].expiration == Some(min_expiration),
{
    crate::storage::lemma_key_index(pre, key);
    crate::storage::lemma_ledger_key_eqv_props();
    crate::xdr::lemma_eqv_props();
    assert forall|j: int| 0 <= j < pre.len() implies !crate::xdr::ledger_key_eqv(
        post[j].key,
        key,
    ) by {
        assert(post[j] == pre[j]);
    }
    crate::storage::lemma_key_index_of_scan(post, key, pre.len() as int);
}

} // verus!
