//! The ledger-key-addressed store behind the host's storage facade: a
//! footprint of entries with unique keys, each carrying an optional
//! expiration ledger. Every access is metered through the budget it is
//! handed, one map-entry charge per operation.

use vstd::prelude::*;

use crate::budget::{
    budget_metered, charge_error, charge_succeeds, Budget, ContractCostType,
};
use crate::errors::{Error, HostError, ScErrorCode, ScErrorType};
use crate::xdr::{
    clone_ledger_entry, clone_ledger_key, ledger_entry_eqv, ledger_key_eq, ledger_key_eqv,
    LedgerEntry, LedgerKey,
};

verus! {

/// One stored ledger entry with its key and expiration ledger.
#[derive(Clone, Debug, PartialEq, Eq)]
pub struct StorageEntry {
    pub key: LedgerKey,
    pub entry: LedgerEntry,
    pub expiration: Option<u32>,
}

/// The index of the first entry whose key matches `k`, or `-1`.
pub open spec fn key_index(s: Seq<StorageEntry>, k: LedgerKey) -> int
    decreases s.len(),
{
    if s.len() == 0 {
        -1
    } else if ledger_key_eqv(s[0].key, k) {
        0
    } else {
        let r = key_index(s.drop_first(), k);
        if r < 0 {
            -1
        } else {
            r + 1
        }
    }
}

/// Whether some entry's key matches `k`.
pub open spec fn has_key(s: Seq<StorageEntry>, k: LedgerKey) -> bool {
    key_index(s, k) >= 0
}

/// What `key_index` finds: a bounded index of a matching entry, before
/// which nothing matches; or `-1` when nothing matches at all.
pub proof fn lemma_key_index(s: Seq<StorageEntry>, k: LedgerKey)
    ensures
        -1 <= key_index(s, k) < s.len(),
        key_index(s, k) >= 0 ==> ledger_key_eqv(s[key_index(s, k)].key, k),
        forall|j: int| 0 <= j < key_index(s, k) ==> !ledger_key_eqv(s[j].key, k),
        key_index(s, k) == -1 ==> forall|j: int| 0 <= j < s.len() ==> !ledger_key_eqv(s[j].key, k),
    decreases s.len(),
{
    if s.len() > 0 && !ledger_key_eqv(s[0].key, k) {
        lemma_key_index(s.drop_first(), k);
        assert forall|j: int| 1 <= j < s.len() implies s.drop_first()[j - 1] == s[j] by {}
    }
}

/// A scan that matched at `i` after failing below it pins the index.
pub proof fn lemma_key_index_of_scan(s: Seq<StorageEntry>, k: LedgerKey, i: int)
    requires
        0 <= i < s.len(),
        ledger_key_eqv(s[i].key, k),
        forall|j: int| 0 <= j < i ==> !ledger_key_eqv(s[j].key, k),
    ensures
        key_index(s, k) == i,
    decreases i,
{
    if i == 0 {
    } else {
        assert(!ledger_key_eqv(s[0].key, k));
        lemma_key_index_of_scan(s.drop_first(), k, i - 1);
    }
}

/// A scan that never matched means the key is absent.
pub proof fn lemma_key_index_absent(s: Seq<StorageEntry>, k: LedgerKey)
    requires
        forall|j: int| 0 <= j < s.len() ==> !ledger_key_eqv(s[j].key, k),
    ensures
        key_index(s, k) == -1,
    decreases s.len(),
{
    if s.len() > 0 {
        lemma_key_index_absent(s.drop_first(), k);
    }
}

/// The ledger-key-addressed store.
#[derive(Clone, Debug)]
pub struct Storage {
    pub entries: Vec<StorageEntry>,
}

impl View for Storage {
    type V = Seq<StorageEntry>;

    open spec fn view(&self) -> Seq<StorageEntry> {
        self.entries@
    }
}

impl Storage {
    /// No two stored entries share a key.
    pub open spec fn wf(&self) -> bool {
        forall|i: int, j: int|
            0 <= i < j < self@.len() ==> !ledger_key_eqv(
                #[trigger] self@[i].key,
                #[trigger] self@[j].key,
            )
    }

    /// An empty store.
    pub fn new() -> (r: Storage)
        ensures
            r@.len() == 0,
            r.wf(),
    {
        Storage { entries: Vec::new() }
    }

    /// The index of the entry the key addresses, if any.
    fn find_index(&self, key: &LedgerKey) -> (r: Option<usize>)
        ensures
            r matches Some(i) ==> i < self@.len() && i == key_index(self@, *key),
            r is None ==> key_index(self@, *key) == -1,
    {
        let n = self.entries.len();
        let mut i: usize = 0;
        while i < n
            invariant
                i <= n,
                n == self@.len(),
                forall|j: int| 0 <= j < i ==> !ledger_key_eqv(self@[j].key, *key),
            decreases n - i,
        {
            if ledger_key_eq(&self.entries[i].key, key) {
                proof {
                    lemma_key_index_of_scan(self@, *key, i as int);
                }
                return Some(i);
            }

            i += 1;
        }
        proof {
            lemma_key_index_absent(self@, *key);
        }
        None
    }

    /// Fetches the entry the key addresses. Charges one map-entry access;
    /// a key that addresses nothing fails with `(Storage, MissingValue)`.
    pub fn get(&self, key: &LedgerKey, budget: &mut Budget) -> (r: Result<LedgerEntry, HostError>)
        requires
            old(budget).0.wf(),
            old(budget).0.covers(ContractCostType::MapEntry),
        ensures
            budget_metered(*old(budget), *final(budget), ContractCostType::MapEntry, 1, None),
            !charge_succeeds(old(budget).0, ContractCostType::MapEntry, 1, None) ==> r == Err::<
                LedgerEntry,
                HostError,
            >(charge_error(old(budget).0, ContractCostType::MapEntry, 1, None)),
            charge_succeeds(old(budget).0, ContractCostType::MapEntry, 1, None) ==> {
                if has_key(self@, *key) {
                    r matches Ok(e) && ledger_entry_eqv(e, self@[key_index(self@, *key)].entry)
                } else {
                    r == Err::<LedgerEntry, HostError>(
                        Error { error_type: ScErrorType::Storage, code: ScErrorCode::MissingValue },
                    )
                }
            },
    {
        match budget.charge(ContractCostType::MapEntry, None) {
            Ok(u) => u,
            Err(e) => {
                return Err(e);
            },
        };
        match self.find_index(key) {
            Some(i) => Ok(clone_ledger_entry(&self.entries[i].entry)),
            None => Err(
                Error::from_type_and_code(ScErrorType::Storage, ScErrorCode::MissingValue),
            ),
        }
    }

    /// Fetches the entry the key addresses together with its expiration
    /// ledger. Charges one map-entry access.
    pub fn get_with_expiration(&self, key: &LedgerKey, budget: &mut Budget) -> (r: Result<
        (LedgerEntry, Option<u32>),
        HostError,
    >)
        requires
            old(budget).0.wf(),
            old(budget).0.covers(ContractCostType::MapEntry),
        ensures
            budget_metered(*old(budget), *final(budget), ContractCostType::MapEntry, 1, None),
            !charge_succeeds(old(budget).0, ContractCostType::MapEntry, 1, None) ==> r == Err::<
                (LedgerEntry, Option<u32>),
                HostError,
            >(charge_error(old(budget).0, ContractCostType::MapEntry, 1, None)),
            charge_succeeds(old(budget).0, ContractCostType::MapEntry, 1, None) ==> {
                if has_key(self@, *key) {
                    r matches Ok(p) && ledger_entry_eqv(p.0, self@[key_index(self@, *key)].entry)
                        && p.1 == self@[key_index(self@, *key)].expiration
                } else {
                    r == Err::<(LedgerEntry, Option<u32>), HostError>(
                        Error { error_type: ScErrorType::Storage, code: ScErrorCode::MissingValue },
                    )
                }
            },
    {
        match budget.charge(ContractCostType::MapEntry, None) {
            Ok(u) => u,
            Err(e) => {
                return Err(e);
            },
        };
        match self.find_index(key) {
            Some(i) => Ok(
                (clone_ledger_entry(&self.entries[i].entry), self.entries[i].expiration),
            ),
            None => Err(
                Error::from_type_and_code(ScErrorType::Storage, ScErrorCode::MissingValue),
            ),
        }
    }

    /// Whether the key addresses an entry. Charges one map-entry access.
    pub fn has(&self, key: &LedgerKey, budget: &mut Budget) -> (r: Result<bool, HostError>)
        requires
            old(budget).0.wf(),
            old(budget).0.covers(ContractCostType::MapEntry),
        ensures
            budget_metered(*old(budget), *final(budget), ContractCostType::MapEntry, 1, None),
            !charge_succeeds(old(budget).0, ContractCostType::MapEntry, 1, None) ==> r == Err::<
                bool,
                HostError,
            >(charge_error(old(budget).0, ContractCostType::MapEntry, 1, None)),
            charge_succeeds(old(budget).0, ContractCostType::MapEntry, 1, None) ==> r == Ok::<
                bool,
                HostError,
            >(has_key(self@, *key)),
    {
        match budget.charge(ContractCostType::MapEntry, None) {
            Ok(u) => u,
            Err(e) => {
                return Err(e);
            },
        };
        proof {
            lemma_key_index(self@, *key);
        }
        match self.find_index(key) {
            Some(_) => Ok(true),
            None => Ok(false),
        }
    }

    /// Writes the entry the key addresses: overwrites payload and
    /// expiration in place if the key is present, appends a new entry
    /// otherwise. Charges one map-entry access.
    pub fn put(
        &mut self,
        key: &LedgerKey,
        entry: &LedgerEntry,
        expiration: Option<u32>,
        budget: &mut Budget,
    ) -> (r: Result<(), HostError>)
        requires
            old(budget).0.wf(),
            old(budget).0.covers(ContractCostType::MapEntry),
            old(self).wf(),
        ensures
            final(self).wf(),
            budget_metered(*old(budget), *final(budget), ContractCostType::MapEntry, 1, None),
            !charge_succeeds(old(budget).0, ContractCostType::MapEntry, 1, None) ==> r == Err::<
                (),
                HostError,
            >(charge_error(old(budget).0, ContractCostType::MapEntry, 1, None)) && *final(self)
                == *old(self),
            charge_succeeds(old(budget).0, ContractCostType::MapEntry, 1, None) ==> r == Ok::<
                (),
                HostError,
            >(()) && {
                if has_key(old(self)@, *key) {
                    let i = key_index(old(self)@, *key);
                    &&& final(self)@.len() == old(self)@.len()
                    &&& forall|j: int|
                        0 <= j < old(self)@.len() && j != i ==> final(self)@[j] == old(self)@[j]
                    &&& ledger_key_eqv(final(self)@[i].key, *key)
                    &&& ledger_entry_eqv(final(self)@[i].entry, *entry)
                    &&& final(self)@[i].expiration == expiration
                } else {
                    &&& final(self)@.len() == old(self)@.len() + 1
                    &&& forall|j: int| 0 <= j < old(self)@.len() ==> final(self)@[j] == old(self)@[j]
                    &&& ledger_key_eqv(final(self)@[old(self)@.len() as int].key, *key)
                    &&& ledger_entry_eqv(final(self)@[old(self)@.len() as int].entry, *entry)
                    &&& final(self)@[old(self)@.len() as int].expiration == expiration
                }
            },
    {
        match budget.charge(ContractCostType::MapEntry, None) {
            Ok(u) => u,
            Err(e) => {
                return Err(e);
            },
        };
        proof {
            lemma_key_index(self@, *key);
        }
        match self.find_index(key) {
            Some(i) => {
                proof {
                    lemma_key_index(old(self)@, *key);
                    assert(ledger_key_eqv(old(self)@[i as int].key, *key));
                }
                let new_key = clone_ledger_key(key);
                self.entries[i] = StorageEntry {
                    key: new_key,
                    entry: clone_ledger_entry(entry),
                    expiration,
                };
                proof {
                    lemma_ledger_key_eqv_props();
                    assert forall|x: int, y: int| 0 <= x < y < self@.len() implies !ledger_key_eqv(
                        self@[x].key,
                        self@[y].key,
                    ) by {
                        if x != i as int && y != i as int {
                            assert(self@[x] == old(self)@[x]);
                            assert(self@[y] == old(self)@[y]);
                        } else if x == i as int {
                            assert(self@[y] == old(self)@[y]);
                            assert(ledger_key_eqv(self@[x].key, *key));
                            assert(!ledger_key_eqv(old(self)@[x].key, old(self)@[y].key));
                            if ledger_key_eqv(self@[x].key, self@[y].key) {
                                assert(ledger_key_eqv(old(self)@[x].key, self@[x].key));
                                assert(ledger_key_eqv(old(self)@[x].key, self@[y].key));
                                assert(false);
                            }
                        } else {
                            assert(self@[x] == old(self)@[x]);
                            assert(ledger_key_eqv(self@[y].key, *key));
                            assert(!ledger_key_eqv(old(self)@[x].key, old(self)@[y].key));
                            if ledger_key_eqv(self@[x].key, self@[y].key) {
                                assert(ledger_key_eqv(self@[x].key, old(self)@[y].key));
                                assert(false);
                            }
                        }
                    }
                }
                Ok(())
            },
            None => {
                self.entries.push(
                    StorageEntry {
                        key: clone_ledger_key(key),
                        entry: clone_ledger_entry(entry),
                        expiration,
                    },
                );
                proof {
                    lemma_ledger_key_eqv_props();
                    lemma_key_index(old(self)@, *key);
                    assert forall|x: int, y: int| 0 <= x < y < self@.len() implies !ledger_key_eqv(
                        self@[x].key,
                        self@[y].key,
                    ) by {
                        if y == old(self)@.len() as int {
                            assert(self@[x] == old(self)@[x]);
                        } else {
                            assert(self@[x] == old(self)@[x]);
                            assert(self@[y] == old(self)@[y]);
                        }
                    }
                }
                Ok(())
            },
        }
    }
}

/// The expiration ledger after a bump: raised to at least the low
/// watermark, then capped by the high watermark. An entry without an
/// expiration counts as expiring at zero.
pub open spec fn bumped_expiration(old_exp: Option<u32>, low: u32, high: u32) -> u32 {
    let cur = match old_exp {
        Some(e) => e,
        None => 0u32,
    };
    let raised = if cur < low {
        low
    } else {
        cur
    };
    if raised > high {
        high
    } else {
        raised
    }
}

impl Storage {
    /// Raises the expiration of the entry the key addresses to at least
    /// `low`, capped by `high`. Charges one map-entry access; a key that
    /// addresses nothing fails with `(Storage, MissingValue)`.
    pub fn bump(&mut self, key: &LedgerKey, low: u32, high: u32, budget: &mut Budget) -> (r:
        Result<(), HostError>)
        requires
            old(budget).0.wf(),
            old(budget).0.covers(ContractCostType::MapEntry),
            old(self).wf(),
        ensures
            final(self).wf(),
            budget_metered(*old(budget), *final(budget), ContractCostType::MapEntry, 1, None),
            !charge_succeeds(old(budget).0, ContractCostType::MapEntry, 1, None) ==> r == Err::<
                (),
                HostError,
            >(charge_error(old(budget).0, ContractCostType::MapEntry, 1, None)) && *final(self)
                == *old(self),
            charge_succeeds(old(budget).0, ContractCostType::MapEntry, 1, None) ==> {
                if has_key(old(self)@, *key) {
                    let i = key_index(old(self)@, *key);
                    &&& r == Ok::<(), HostError>(())
                    &&& final(self)@.len() == old(self)@.len()
                    &&& forall|j: int|
                        0 <= j < old(self)@.len() && j != i ==> final(self)@[j] == old(self)@[j]
                    &&& ledger_key_eqv(final(self)@[i].key, old(self)@[i].key)
                    &&& ledger_entry_eqv(final(self)@[i].entry, old(self)@[i].entry)
                    &&& final(self)@[i].expiration == Some(
                        bumped_expiration(old(self)@[i].expiration, low, high),
                    )
                } else {
                    &&& r == Err::<(), HostError>(
                        Error { error_type: ScErrorType::Storage, code: ScErrorCode::MissingValue },
                    )
                    &&& *final(self) == *old(self)
                }
            },
    {
        match budget.charge(ContractCostType::MapEntry, None) {
            Ok(u) => u,
            Err(e) => {
                return Err(e);
            },
        };
        match self.find_index(key) {
            Some(i) => {
                let cur: u32 = match self.entries[i].expiration {
                    Some(e) => e,
                    None => 0,
                };
                let raised = if cur < low {
                    low
                } else {
                    cur
                };
                let capped = if raised > high {
                    high
                } else {
                    raised
                };
                let new_key = clone_ledger_key(&self.entries[i].key);
                let new_entry = clone_ledger_entry(&self.entries[i].entry);
                self.entries[i] = StorageEntry {
                    key: new_key,
                    entry: new_entry,
                    expiration: Some(capped),
                };
                proof {
                    lemma_ledger_key_eqv_props();
                    lemma_key_index(old(self)@, *key);
                    assert forall|x: int, y: int| 0 <= x < y < self@.len() implies !ledger_key_eqv(
                        self@[x].key,
                        self@[y].key,
                    ) by {
                        if x != i as int && y != i as int {
                            assert(self@[x] == old(self)@[x]);
                            assert(self@[y] == old(self)@[y]);
                        } else if x == i as int {
                            assert(self@[y] == old(self)@[y]);
                            assert(ledger_key_eqv(self@[x].key, old(self)@[x].key));
                            if ledger_key_eqv(self@[x].key, self@[y].key) {
                                assert(ledger_key_eqv(old(self)@[x].key, self@[x].key));
                                assert(ledger_key_eqv(old(self)@[x].key, self@[y].key));
                                assert(false);
                            }
                        } else {
                            assert(self@[x] == old(self)@[x]);
                            assert(ledger_key_eqv(self@[y].key, old(self)@[y].key));
                            if ledger_key_eqv(self@[x].key, self@[y].key) {
                                assert(ledger_key_eqv(self@[x].key, old(self)@[y].key));
                                assert(false);
                            }
                        }
                    }
                }
                Ok(())
            },
            None => Err(
                Error::from_type_and_code(ScErrorType::Storage, ScErrorCode::MissingValue),
            ),
        }
    }
}

/// Key equality up to allocation is symmetric and transitive over the keys
/// the store compares.
pub proof fn lemma_ledger_key_eqv_props()
    ensures
        forall|a: LedgerKey, b: LedgerKey|
            #[trigger] ledger_key_eqv(a, b) ==> ledger_key_eqv(b, a),
        forall|a: LedgerKey, b: LedgerKey, c: LedgerKey|
            #[trigger] ledger_key_eqv(a, b) && #[trigger] ledger_key_eqv(b, c) ==> ledger_key_eqv(
                a,
                c,
            ),
{
}

} // verus!

verus! {

/// The shape one bump leaves a store in: the entry at `i` keeps its key and
/// payload (up to allocation) and carries the bumped expiration; everything
/// else is untouched.
pub open spec fn bumped_at(
    pre: Seq<StorageEntry>,
    post: Seq<StorageEntry>,
    i: int,
    low: u32,
    high: u32,
) -> bool {
    &&& post.len() == pre.len()
    &&& forall|j: int| 0 <= j < pre.len() && j != i ==> post[j] == pre[j]
    &&& 0 <= i < pre.len()
    &&& ledger_key_eqv(post[i].key, pre[i].key)
    &&& ledger_entry_eqv(post[i].entry, pre[i].entry)
    &&& post[i].expiration == Some(bumped_expiration(pre[i].expiration, low, high))
}

/// Pointwise key-equivalent stores index every key at the same position.
pub proof fn lemma_key_index_eqv_stable(pre: Seq<StorageEntry>, post: Seq<StorageEntry>, k: LedgerKey)
    requires
        post.len() == pre.len(),
        forall|j: int| 0 <= j < pre.len() ==> ledger_key_eqv(#[trigger] post[j].key, pre[j].key),
    ensures
        key_index(post, k) == key_index(pre, k),
    decreases pre.len(),
{
    lemma_ledger_key_eqv_props();
    if pre.len() > 0 {
        assert(ledger_key_eqv(post[0].key, k) == ledger_key_eqv(pre[0].key, k));
        if !ledger_key_eqv(pre[0].key, k) {
            assert forall|j: int|
                0 <= j < pre.drop_first().len() implies ledger_key_eqv(
                #[trigger] post.drop_first()[j].key,
                pre.drop_first()[j].key,
            ) by {
                assert(post.drop_first()[j] == post[j + 1]);
                assert(pre.drop_first()[j] == pre[j + 1]);
            }
            lemma_key_index_eqv_stable(pre.drop_first(), post.drop_first(), k);
        }
    }
}

} // verus!
