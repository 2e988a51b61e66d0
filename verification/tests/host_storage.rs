use soroban_host_core::budget::ContractCostType;
use soroban_host_core::errors::{Error, ScErrorCode, ScErrorType};
use soroban_host_core::host::{Host, LedgerInfo, MemoryError, TableError};
use soroban_host_core::symbol::Symbol;
use soroban_host_core::xdr::{
    AccountEntry, AccountId, ContractCodeEntry, ContractDataDurability, ContractExecutable,
    ExtensionPoint, Hash256, LedgerEntry, LedgerEntryData, LedgerEntryExt, LedgerKey,
    LedgerKeyContractCode, ScAddress, ScContractInstance, ScMap, ScVal, Signer, SignerKey,
    Thresholds, TrustLineAsset, Uint256,
};

fn test_ledger() -> LedgerInfo {
    LedgerInfo {
        network_id: [7u8; 32],
        min_persistent_entry_expiration: 4096,
        min_temp_entry_expiration: 16,
    }
}

fn instance(executable: ContractExecutable) -> ScContractInstance {
    ScContractInstance { executable, storage: Some(ScMap(vec![1, 2, 3])) }
}

#[test]
fn storage_roundtrip_and_expiration_preserved() {
    let mut host = Host::new(test_ledger());
    let cid = Hash256([9u8; 32]);
    let key = host.contract_instance_ledger_key(&cid).unwrap();
    let inst = instance(ContractExecutable::Wasm(Hash256([1u8; 32])));

    // Store then retrieve yields the stored instance back.
    host.store_contract_instance(inst.clone(), cid, &key).unwrap();
    let got = host.retrieve_contract_instance_from_storage(&key).unwrap();
    assert_eq!(got, inst);

    // A fresh entry gets the minimum persistent expiration.
    assert_eq!(host.storage.entries[0].expiration, Some(4096));

    // Bump it, then store again: the second store preserves the prior
    // expiration ledger.
    host.storage.entries[0].expiration = Some(9999);
    let inst2 = instance(ContractExecutable::Token);
    host.store_contract_instance(inst2.clone(), cid, &key).unwrap();
    assert_eq!(host.storage.entries[0].expiration, Some(9999));
    let got2 = host.retrieve_contract_instance_from_storage(&key).unwrap();
    assert_eq!(got2, inst2);
}

#[test]
fn retrieve_missing_and_wrong_variant() {
    let mut host = Host::new(test_ledger());
    let cid = Hash256([9u8; 32]);
    let key = host.contract_instance_ledger_key(&cid).unwrap();
    assert_eq!(
        host.retrieve_contract_instance_from_storage(&key),
        Err(Error { error_type: ScErrorType::Storage, code: ScErrorCode::MissingValue })
    );
    // An entry of the right key but the wrong payload is corrupt storage.
    let entry = LedgerEntry {
        last_modified_ledger_seq: 0,
        data: LedgerEntryData::ContractData(soroban_host_core::xdr::ContractDataEntry {
            contract: ScAddress::Contract(cid),
            key: ScVal::LedgerKeyContractInstance,
            val: ScVal::U32(5),
            durability: ContractDataDurability::Persistent,
            ext: ExtensionPoint::V0,
        }),
        ext: LedgerEntryExt::V0,
    };
    let mut budget = host.budget.clone();
    host.storage.put(&key, &entry, Some(100), &mut budget).unwrap();
    host.budget = budget;
    assert_eq!(
        host.retrieve_contract_instance_from_storage(&key),
        Err(Error { error_type: ScErrorType::Storage, code: ScErrorCode::InternalError })
    );
}

#[test]
fn wasm_exists_and_retrieve_wasm() {
    let mut host = Host::new(test_ledger());
    let h = Hash256([3u8; 32]);
    assert_eq!(host.wasm_exists(&h), Ok(false));
    let code_key = LedgerKey::ContractCode(LedgerKeyContractCode { hash: h });
    let entry = LedgerEntry {
        last_modified_ledger_seq: 0,
        data: LedgerEntryData::ContractCode(ContractCodeEntry {
            ext: ExtensionPoint::V0,
            hash: h,
            code: vec![0, 97, 115, 109],
        }),
        ext: LedgerEntryExt::V0,
    };
    let mut budget = host.budget.clone();
    host.storage.put(&code_key, &entry, Some(50), &mut budget).unwrap();
    host.budget = budget;
    assert_eq!(host.wasm_exists(&h), Ok(true));
    assert_eq!(host.retrieve_wasm_from_storage(&h), Ok(vec![0, 97, 115, 109]));
}

#[test]
fn bump_propagates_to_wasm_code_but_not_token() {
    let mut host = Host::new(test_ledger());
    let cid = Hash256([9u8; 32]);
    let wasm = Hash256([3u8; 32]);
    let ikey = host.contract_instance_ledger_key(&cid).unwrap();
    host.store_contract_instance(instance(ContractExecutable::Wasm(wasm)), cid, &ikey).unwrap();
    let code_key = LedgerKey::ContractCode(LedgerKeyContractCode { hash: wasm });
    let entry = LedgerEntry {
        last_modified_ledger_seq: 0,
        data: LedgerEntryData::ContractCode(ContractCodeEntry {
            ext: ExtensionPoint::V0,
            hash: wasm,
            code: vec![1],
        }),
        ext: LedgerEntryExt::V0,
    };
    let mut budget = host.budget.clone();
    host.storage.put(&code_key, &entry, Some(10), &mut budget).unwrap();
    host.budget = budget;

    // Bump both the instance and the code entry.
    host.bump_contract_instance_and_code_from_contract_id(&cid, 5000, 6000).unwrap();
    assert_eq!(host.storage.entries[0].expiration, Some(5000));
    assert_eq!(host.storage.entries[1].expiration, Some(5000));

    // The high watermark caps the raise.
    host.bump_contract_instance_and_code_from_contract_id(&cid, 9000, 7000).unwrap();
    assert_eq!(host.storage.entries[0].expiration, Some(7000));
    assert_eq!(host.storage.entries[1].expiration, Some(7000));

    // A token instance has no code entry to bump.
    let mut host2 = Host::new(test_ledger());
    let cid2 = Hash256([8u8; 32]);
    let ikey2 = host2.contract_instance_ledger_key(&cid2).unwrap();
    host2.store_contract_instance(instance(ContractExecutable::Token), cid2, &ikey2).unwrap();
    host2.bump_contract_instance_and_code_from_contract_id(&cid2, 5000, 6000).unwrap();
    assert_eq!(host2.storage.entries.len(), 1);
    assert_eq!(host2.storage.entries[0].expiration, Some(5000));
}

#[test]
fn bump_missing_instance() {
    let mut host = Host::new(test_ledger());
    let cid = Hash256([9u8; 32]);
    assert_eq!(
        host.bump_contract_instance_and_code_from_contract_id(&cid, 5000, 6000),
        Err(Error { error_type: ScErrorType::Storage, code: ScErrorCode::MissingValue })
    );
}

#[test]
fn signer_weight_lookup() {
    let mut host = Host::new(test_ledger());
    let master = Uint256([1u8; 32]);
    let signer_key = Uint256([2u8; 32]);
    let heavy_key = Uint256([3u8; 32]);
    let stranger = Uint256([4u8; 32]);
    let account = AccountEntry {
        account_id: AccountId(master),
        thresholds: Thresholds([77, 0, 0, 0]),
        signers: vec![
            Signer { key: SignerKey::PreAuthTx(signer_key), weight: 9 },
            Signer { key: SignerKey::Ed25519(signer_key), weight: 17 },
            Signer { key: SignerKey::Ed25519(heavy_key), weight: 1000 },
        ],
    };
    // The master key returns the master weight.
    assert_eq!(host.get_signer_weight_from_account(master, &account), Ok(77));
    // A listed signer returns its weight; only ed25519 keys count.
    assert_eq!(host.get_signer_weight_from_account(signer_key, &account), Ok(17));
    // Weights clamp at 255.
    assert_eq!(host.get_signer_weight_from_account(heavy_key, &account), Ok(255));
    // A stranger weighs nothing.
    assert_eq!(host.get_signer_weight_from_account(stranger, &account), Ok(0));
}

#[test]
fn account_roundtrip() {
    let mut host = Host::new(test_ledger());
    let id = AccountId(Uint256([5u8; 32]));
    let account = AccountEntry {
        account_id: id,
        thresholds: Thresholds([1, 2, 3, 4]),
        signers: vec![],
    };
    let key = host.to_account_key(id).unwrap();
    let entry = LedgerEntry {
        last_modified_ledger_seq: 0,
        data: LedgerEntryData::Account(account.clone()),
        ext: LedgerEntryExt::V0,
    };
    let mut budget = host.budget.clone();
    host.storage.put(&key, &entry, None, &mut budget).unwrap();
    host.budget = budget;
    assert_eq!(host.load_account(id), Ok(account));
}

#[test]
fn contract_id_from_addresses() {
    let mut host = Host::new(test_ledger());
    let cid = Hash256([6u8; 32]);
    assert_eq!(host.contract_id_from_scaddress(ScAddress::Contract(cid)), Ok(cid));
    assert_eq!(
        host.contract_id_from_scaddress(ScAddress::Account(AccountId(Uint256([0u8; 32])))),
        Err(Error { error_type: ScErrorType::Object, code: ScErrorCode::InvalidInput })
    );
    host.objects.addresses.push(ScAddress::Contract(cid));
    assert_eq!(
        host.contract_id_from_address(soroban_host_core::host::AddressObject(0)),
        Ok(cid)
    );
    assert_eq!(
        host.contract_id_from_address(soroban_host_core::host::AddressObject(1)),
        Err(Error { error_type: ScErrorType::Object, code: ScErrorCode::MissingValue })
    );
}

#[test]
fn preimage_binds_network_id() {
    let mut host = Host::new(test_ledger());
    let pre = soroban_host_core::xdr::ContractIdPreimage::Address {
        address: ScAddress::Contract(Hash256([1u8; 32])),
        salt: Uint256([2u8; 32]),
    };
    let full = host.get_full_contract_id_preimage(pre).unwrap();
    match full {
        soroban_host_core::xdr::HashIdPreimage::ContractId(c) => {
            assert_eq!(c.network_id, Hash256([7u8; 32]));
            assert_eq!(c.contract_id_preimage, pre);
        },
    }
}

#[test]
fn memory_growing_callbacks() {
    let mut host = Host::new(test_ledger());
    // Growth within the remaining memory budget is allowed and charged one
    // memory byte per grown byte (WasmMemAlloc).
    assert_eq!(host.memory_growing(0, 1024, None), Ok(true));
    assert_eq!(host.budget.get_mem_bytes_consumed(), Ok(1024));
    // Growth past the declared maximum is denied.
    assert_eq!(
        host.memory_growing(1024, 2048, Some(2000)),
        Err(MemoryError::OutOfBoundsGrowth)
    );
    // Growth past the remaining budget is denied.
    let too_big = (soroban_host_core::budget::DEFAULT_MEM_BYTES_LIMIT + 1) as usize;
    assert_eq!(host.memory_growing(0, too_big, None), Err(MemoryError::OutOfBoundsGrowth));
}

#[test]
fn table_growing_callbacks() {
    let mut host = Host::new(test_ledger());
    assert_eq!(host.table_growing(0, 1000, None), Ok(true));
    assert_eq!(
        host.table_growing(0, 1001, None),
        Err(TableError::GrowOutOfBounds { maximum: u32::MAX, current: 0, delta: 1001 })
    );
    assert_eq!(
        host.table_growing(5, 10, Some(8)),
        Err(TableError::GrowOutOfBounds { maximum: 8, current: 5, delta: 5 })
    );
    assert_eq!(host.instances(), 1);
    assert_eq!(host.tables(), 1);
    assert_eq!(host.memories(), 1);
    let _ = ContractCostType::WasmMemAlloc;
}

#[test]
fn long_symbol_goes_through_object_table() {
    let mut host = Host::new(test_ledger());
    // Eleven characters fail the small form but succeed as a symbol via
    // the object path.
    let sym = host.symbol_from_str("hello_world").unwrap();
    match sym {
        Symbol::Object(_) => {},
        Symbol::Small(_) => panic!("eleven characters cannot pack small"),
    }
    let s = host.symbol_str_from_symbol(&sym).unwrap();
    assert_eq!(s.to_string(), "hello_world");
    // Short identifiers stay small and never touch the object table.
    let small = host.symbol_from_str("short").unwrap();
    match small {
        Symbol::Small(_) => {},
        Symbol::Object(_) => panic!("five characters pack small"),
    }
    assert_eq!(host.objects.symbols.len(), 1);
    // Bad characters are rejected on the object path too.
    assert_eq!(
        host.symbol_from_str("hello world"),
        Err(Error { error_type: ScErrorType::Value, code: ScErrorCode::InvalidInput })
    );
    // And anything above the object capacity is refused.
    let long = "a_really_long_symbol_over_32_bytes_in_total";
    assert_eq!(
        host.symbol_from_str(long),
        Err(Error { error_type: ScErrorType::Object, code: ScErrorCode::ExceededLimit })
    );
}

#[test]
fn symbol_comparison_tags_and_contents() {
    let mut host = Host::new(test_ledger());
    let small_a = host.symbol_from_str("aaa").unwrap();
    let obj_a = host.symbol_from_str("aaaaaaaaaaaa").unwrap();
    let obj_b = host.symbol_from_str("aaaaaaaaaaab").unwrap();
    // Small symbols sort before object symbols, whatever the contents.
    assert_eq!(host.compare_symbols(&small_a, &obj_a), Ok(core::cmp::Ordering::Less));
    assert_eq!(host.compare_symbols(&obj_a, &small_a), Ok(core::cmp::Ordering::Greater));
    // Object symbols compare by their stored bytes.
    assert_eq!(host.compare_symbols(&obj_a, &obj_b), Ok(core::cmp::Ordering::Less));
    assert_eq!(host.compare_symbols(&obj_b, &obj_a), Ok(core::cmp::Ordering::Greater));
    assert_eq!(host.compare_symbols(&obj_a, &obj_a), Ok(core::cmp::Ordering::Equal));
}

#[test]
fn asset_and_trustline_keys() {
    let mut host = Host::new(test_ledger());
    let issuer = AccountId(Uint256([1u8; 32]));
    let a4 = host.create_asset_4(*b"USDC", issuer);
    assert_eq!(a4, TrustLineAsset::CreditAlphanum4 { asset_code: *b"USDC", issuer });
    let a12 = host.create_asset_12(*b"LONGASSETCDE", issuer);
    assert_eq!(a12, TrustLineAsset::CreditAlphanum12 { asset_code: *b"LONGASSETCDE", issuer });
    let holder = AccountId(Uint256([2u8; 32]));
    let key = host.to_trustline_key(holder, a4).unwrap();
    match key {
        LedgerKey::Trustline(t) => {
            assert_eq!(t.account_id, holder);
            assert_eq!(t.asset, a4);
        },
        _ => panic!("a trustline key addresses a trustline entry"),
    }
}

#[test]
fn entry_from_data_and_min_expirations() {
    let mut host = Host::new(test_ledger());
    assert_eq!(host.get_min_expiration_ledger(ContractDataDurability::Persistent), 4096);
    assert_eq!(host.get_min_expiration_ledger(ContractDataDurability::Temporary), 16);
    let data = LedgerEntryData::ContractCode(ContractCodeEntry {
        ext: ExtensionPoint::V0,
        hash: Hash256([1u8; 32]),
        code: vec![1, 2],
    });
    let entry = host.ledger_entry_from_data(data.clone()).unwrap();
    assert_eq!(entry.last_modified_ledger_seq, 0);
    assert_eq!(entry.data, data);
    assert_eq!(entry.ext, LedgerEntryExt::V0);
}

#[test]
fn bump_raises_entry_without_expiration() {
    // An entry stored without an expiration counts as expiring at zero and
    // gets raised to the low watermark.
    let mut host = Host::new(test_ledger());
    let id = AccountId(Uint256([5u8; 32]));
    let key = host.to_account_key(id).unwrap();
    let entry = LedgerEntry {
        last_modified_ledger_seq: 0,
        data: LedgerEntryData::Account(AccountEntry {
            account_id: id,
            thresholds: Thresholds([0, 0, 0, 0]),
            signers: vec![],
        }),
        ext: LedgerEntryExt::V0,
    };
    let mut budget = host.budget.clone();
    host.storage.put(&key, &entry, None, &mut budget).unwrap();
    host.storage.bump(&key, 300, 500, &mut budget).unwrap();
    host.budget = budget;
    assert_eq!(host.storage.entries[0].expiration, Some(300));
}

#[test]
fn symbol_at_object_capacity() {
    let mut host = Host::new(test_ledger());
    // Exactly thirty-two characters still fit the object form.
    let s32 = "abcdefghijklmnopqrstuvwxyz_01234";
    assert_eq!(s32.len(), 32);
    let sym = host.symbol_from_str(s32).unwrap();
    let back = host.symbol_str_from_symbol(&sym).unwrap();
    assert_eq!(back.to_string(), s32);
    assert_eq!(back.len(), 32);
}
