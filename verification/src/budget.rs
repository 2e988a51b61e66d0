//! The budget / resource meter: per-operation linear cost models, a
//! two-dimensional (CPU-instruction, memory-byte) resource accountant, and the
//! bridge between CPU instructions and the WASM engine's fuel unit.
//!
//! All accumulator arithmetic saturates at `u64::MAX`; it never wraps and
//! never panics, so overrun detection by comparison against a limit stays
//! sound.

use vstd::prelude::*;

use crate::errors::{Error, HostError, ScErrorCode, ScErrorType};

verus! {

// These match the default network config settings.
pub const DEFAULT_CPU_INSN_LIMIT: u64 = 100_000_000;
pub const DEFAULT_MEM_BYTES_LIMIT: u64 = 100 * 1024 * 1024;
pub const DEFAULT_HOST_DEPTH_LIMIT: u32 = 100;

/// The number of bits the linear term of a cost model is scaled by. The
/// linear coefficient is scaled by this factor during parameter fitting to
/// retain significant digits, so evaluation scales the product back down.
pub const COST_MODEL_LIN_TERM_SCALE_BITS: u32 = 7;

/// `2 ^ COST_MODEL_LIN_TERM_SCALE_BITS`, the divisor that undoes the scaling.
pub const COST_MODEL_LIN_TERM_SCALE_FACTOR: u64 = 128;

/// Saturating addition on the mathematical values of two `u64`s.
pub open spec fn sat_add(a: u64, b: u64) -> u64 {
    if a + b > u64::MAX {
        u64::MAX
    } else {
        (a + b) as u64
    }
}

/// Saturating multiplication on the mathematical values of two `u64`s.
pub open spec fn sat_mul(a: u64, b: u64) -> u64 {
    if a * b > u64::MAX {
        u64::MAX
    } else {
        (a * b) as u64
    }
}

/// Saturating subtraction on the mathematical values of two `u64`s.
pub open spec fn sat_sub(a: u64, b: u64) -> u64 {
    if a - b < 0 {
        0u64
    } else {
        (a - b) as u64
    }
}

/// Saturating `u64` multiplication as executable code.
pub fn saturating_mul_u64(a: u64, b: u64) -> (r: u64)
    ensures
        r == sat_mul(a, b),
{
    match a.checked_mul(b) {
        Some(v) => v,
        None => u64::MAX,
    }
}

/// The interface of a cost model: evaluation of the linear expression
/// `const_term + lin_term * input` on an optional input, and a reset of the
/// parameters for calibration overrides.
pub trait HostCostModel {
    fn evaluate_model(&self, input: Option<u64>) -> Result<u64, HostError>;

    fn reset_model(&mut self);
}

/// A `u64` whose value has been scaled up by `2^COST_MODEL_LIN_TERM_SCALE_BITS`.
#[derive(Clone, Copy, Debug, PartialEq, Eq, Structural)]
pub struct ScaledU64(pub u64);

impl ScaledU64 {
    /// Scales the value back down, discarding the fractional bits.
    pub fn unscale(self) -> (r: u64)
        ensures
            r == self.0 / COST_MODEL_LIN_TERM_SCALE_FACTOR,
    {
        self.0 / COST_MODEL_LIN_TERM_SCALE_FACTOR
    }

    /// Wraps an unscaled value, scaling it up.
    pub fn from_unscaled_u64(u: u64) -> (r: ScaledU64)
        requires
            u * COST_MODEL_LIN_TERM_SCALE_FACTOR <= u64::MAX,
        ensures
            r.0 == u * COST_MODEL_LIN_TERM_SCALE_FACTOR,
    {
        ScaledU64(u * COST_MODEL_LIN_TERM_SCALE_FACTOR)
    }

    pub fn is_zero(&self) -> (r: bool)
        ensures
            r == (self.0 == 0),
    {
        self.0 == 0
    }

    pub fn saturating_mul(&self, rhs: u64) -> (r: ScaledU64)
        ensures
            r.0 == sat_mul(self.0, rhs),
    {
        ScaledU64(saturating_mul_u64(self.0, rhs))
    }
}

/// A cost model evaluating the linear expression `const_term + lin_term * x`
/// where the input `x` is optional: a `None` input means the cost is constant.
/// The same shape is used for the CPU dimension and the memory dimension.
#[derive(Clone, Copy, Debug, PartialEq, Eq, Structural)]
pub struct MeteredCostComponent {
    pub const_term: u64,
    pub lin_term: ScaledU64,
}

/// What `MeteredCostComponent::evaluate` returns: `const_term` for a `None`
/// input; otherwise `const_term` saturating-plus the unscaled saturating
/// product of the linear term and the input. A zero linear term
/// short-circuits, so a constant model fed a `Some` input yields exactly
/// `const_term`.
pub open spec fn eval_model(m: MeteredCostComponent, input: Option<u64>) -> u64 {
    match input {
        Some(x) => if m.lin_term.0 == 0 {
            m.const_term
        } else {
            sat_add(m.const_term, sat_mul(m.lin_term.0, x) / COST_MODEL_LIN_TERM_SCALE_FACTOR)
        },
        None => m.const_term,
    }
}

/// One entry of an on-chain cost schedule, as signed values that still need
/// validation.
#[derive(Clone, Copy, Debug, PartialEq, Eq, Structural)]
pub struct ContractCostParamEntry {
    pub const_term: i64,
    pub linear_term: i64,
}

impl MeteredCostComponent {
    /// Validates one configured schedule entry: negative terms are rejected
    /// with `(Context, InvalidInput)`.
    pub fn try_from_entry(entry: &ContractCostParamEntry) -> (r: Result<
        MeteredCostComponent,
        HostError,
    >)
        ensures
            entry.const_term >= 0 && entry.linear_term >= 0 ==> r == Ok::<
                MeteredCostComponent,
                HostError,
            >(
                MeteredCostComponent {
                    const_term: entry.const_term as u64,
                    lin_term: ScaledU64(entry.linear_term as u64),
                },
            ),
            entry.const_term < 0 || entry.linear_term < 0 ==> r == Err::<
                MeteredCostComponent,
                HostError,
            >(Error { error_type: ScErrorType::Context, code: ScErrorCode::InvalidInput }),
    {
        if entry.const_term < 0 || entry.linear_term < 0 {
            return Err(Error::from_type_and_code(ScErrorType::Context, ScErrorCode::InvalidInput));
        }
        Ok(MeteredCostComponent {
            const_term: entry.const_term as u64,
            lin_term: ScaledU64(entry.linear_term as u64),
        })
    }

    /// Evaluates the model on an optional input.
    pub fn evaluate(&self, input: Option<u64>) -> (r: Result<u64, HostError>)
        ensures
            r == Ok::<u64, HostError>(eval_model(*self, input)),
    {
        let const_term = self.const_term;
        match input {
            Some(input) => {
                let mut res = const_term;
                if !self.lin_term.is_zero() {
                    let lin_cost = self.lin_term.saturating_mul(input).unscale();
                    res = res.saturating_add(lin_cost);
                }
                Ok(res)
            },
            None => Ok(const_term),
        }
    }

    /// Zeroes both terms (used to override and test individual models).
    pub fn reset(&mut self)
        ensures
            *final(self) == (MeteredCostComponent { const_term: 0, lin_term: ScaledU64(0) }),
    {
        self.const_term = 0;
        self.lin_term = ScaledU64(0);
    }
}

} // verus!

verus! {

impl HostCostModel for MeteredCostComponent {
    fn evaluate_model(&self, input: Option<u64>) -> Result<u64, HostError> {
        MeteredCostComponent::evaluate(self, input)
    }

    fn reset_model(&mut self) {
        MeteredCostComponent::reset(self)
    }
}

/// The number of metered cost types.
pub const COST_TYPES_COUNT: usize = 28;

/// The closed, consensus-critical enumeration of resource-charging
/// categories. Both the ordering (each variant's ordinal indexes the cost
/// tables) and the constant-versus-linear semantics of every variant must be
/// preserved identically by every implementation.
#[derive(Clone, Copy, Debug, PartialEq, Eq, Structural)]
pub enum ContractCostType {
    /// One fuel unit of WASM work.
    WasmInsnExec,
    /// Counts the engine's memory fuel.
    WasmMemAlloc,
    /// Bytes allocated in host memory.
    HostMemAlloc,
    /// Bytes copied in host memory.
    HostMemCpy,
    /// Bytes compared in host memory.
    HostMemCmp,
    DispatchHostFunction,
    VisitObject,
    /// Bytes in the serialization output buffer.
    ValSer,
    /// Bytes in the deserialization input buffer.
    ValDeser,
    /// Bytes hashed.
    ComputeSha256Hash,
    ComputeEd25519PubKey,
    MapEntry,
    VecEntry,
    /// Length of the signed message.
    VerifyEd25519Sig,
    /// Bytes read from VM linear memory.
    VmMemRead,
    /// Bytes written to VM linear memory.
    VmMemWrite,
    /// Length of the WASM bytes.
    VmInstantiation,
    /// Length of the WASM bytes.
    VmCachedInstantiation,
    InvokeVmFunction,
    /// Bytes hashed.
    ComputeKeccak256Hash,
    ComputeEcdsaSecp256k1Key,
    ComputeEcdsaSecp256k1Sig,
    RecoverEcdsaSecp256k1Key,
    Int256AddSub,
    Int256Mul,
    Int256Div,
    Int256Pow,
    Int256Shift,
}

impl ContractCostType {
    /// The consensus-fixed ordinal of this cost type, used to index the
    /// per-dimension model and counter tables.
    pub open spec fn index_spec(&self) -> usize {
        match self {
            ContractCostType::WasmInsnExec => 0,
            ContractCostType::WasmMemAlloc => 1,
            ContractCostType::HostMemAlloc => 2,
            ContractCostType::HostMemCpy => 3,
            ContractCostType::HostMemCmp => 4,
            ContractCostType::DispatchHostFunction => 5,
            ContractCostType::VisitObject => 6,
            ContractCostType::ValSer => 7,
            ContractCostType::ValDeser => 8,
            ContractCostType::ComputeSha256Hash => 9,
            ContractCostType::ComputeEd25519PubKey => 10,
            ContractCostType::MapEntry => 11,
            ContractCostType::VecEntry => 12,
            ContractCostType::VerifyEd25519Sig => 13,
            ContractCostType::VmMemRead => 14,
            ContractCostType::VmMemWrite => 15,
            ContractCostType::VmInstantiation => 16,
            ContractCostType::VmCachedInstantiation => 17,
            ContractCostType::InvokeVmFunction => 18,
            ContractCostType::ComputeKeccak256Hash => 19,
            ContractCostType::ComputeEcdsaSecp256k1Key => 20,
            ContractCostType::ComputeEcdsaSecp256k1Sig => 21,
            ContractCostType::RecoverEcdsaSecp256k1Key => 22,
            ContractCostType::Int256AddSub => 23,
            ContractCostType::Int256Mul => 24,
            ContractCostType::Int256Div => 25,
            ContractCostType::Int256Pow => 26,
            ContractCostType::Int256Shift => 27,
        }
    }

    /// Executable ordinal lookup.
    #[verifier::when_used_as_spec(index_spec)]
    pub fn index(&self) -> (r: usize)
        ensures
            r == self.index_spec(),
    {
        match self {
            ContractCostType::WasmInsnExec => 0,
            ContractCostType::WasmMemAlloc => 1,
            ContractCostType::HostMemAlloc => 2,
            ContractCostType::HostMemCpy => 3,
            ContractCostType::HostMemCmp => 4,
            ContractCostType::DispatchHostFunction => 5,
            ContractCostType::VisitObject => 6,
            ContractCostType::ValSer => 7,
            ContractCostType::ValDeser => 8,
            ContractCostType::ComputeSha256Hash => 9,
            ContractCostType::ComputeEd25519PubKey => 10,
            ContractCostType::MapEntry => 11,
            ContractCostType::VecEntry => 12,
            ContractCostType::VerifyEd25519Sig => 13,
            ContractCostType::VmMemRead => 14,
            ContractCostType::VmMemWrite => 15,
            ContractCostType::VmInstantiation => 16,
            ContractCostType::VmCachedInstantiation => 17,
            ContractCostType::InvokeVmFunction => 18,
            ContractCostType::ComputeKeccak256Hash => 19,
            ContractCostType::ComputeEcdsaSecp256k1Key => 20,
            ContractCostType::ComputeEcdsaSecp256k1Sig => 21,
            ContractCostType::RecoverEcdsaSecp256k1Key => 22,
            ContractCostType::Int256AddSub => 23,
            ContractCostType::Int256Mul => 24,
            ContractCostType::Int256Div => 25,
            ContractCostType::Int256Pow => 26,
            ContractCostType::Int256Shift => 27,
        }
    }

    /// Whether this cost type's model is linear in a defined input (`true`),
    /// or constant with no input (`false`). This fixes, per cost type, whether
    /// the tracker holds a `Some` input accumulator.
    pub open spec fn input_defined_spec(&self) -> bool {
        match self {
            ContractCostType::HostMemAlloc => true,
            ContractCostType::HostMemCpy => true,
            ContractCostType::HostMemCmp => true,
            ContractCostType::ValSer => true,
            ContractCostType::ValDeser => true,
            ContractCostType::ComputeSha256Hash => true,
            ContractCostType::VerifyEd25519Sig => true,
            ContractCostType::VmMemRead => true,
            ContractCostType::VmMemWrite => true,
            ContractCostType::VmInstantiation => true,
            ContractCostType::VmCachedInstantiation => true,
            ContractCostType::ComputeKeccak256Hash => true,
            _ => false,
        }
    }

    /// Executable form of `input_defined_spec`.
    #[verifier::when_used_as_spec(input_defined_spec)]
    pub fn input_defined(&self) -> (r: bool)
        ensures
            r == self.input_defined_spec(),
    {
        match self {
            ContractCostType::HostMemAlloc => true,
            ContractCostType::HostMemCpy => true,
            ContractCostType::HostMemCmp => true,
            ContractCostType::ValSer => true,
            ContractCostType::ValDeser => true,
            ContractCostType::ComputeSha256Hash => true,
            ContractCostType::VerifyEd25519Sig => true,
            ContractCostType::VmMemRead => true,
            ContractCostType::VmMemWrite => true,
            ContractCostType::VmInstantiation => true,
            ContractCostType::VmCachedInstantiation => true,
            ContractCostType::ComputeKeccak256Hash => true,
            _ => false,
        }
    }

    /// All cost types, in consensus order: the entry at position `i` is the
    /// variant whose ordinal is `i`.
    pub fn variants() -> (r: Vec<ContractCostType>)
        ensures
            r@.len() == COST_TYPES_COUNT,
            forall|i: int| 0 <= i < r@.len() ==> #[trigger] r@[i].index_spec() == i,
    {
        let mut v: Vec<ContractCostType> = Vec::new();
        v.push(ContractCostType::WasmInsnExec);
        v.push(ContractCostType::WasmMemAlloc);
        v.push(ContractCostType::HostMemAlloc);
        v.push(ContractCostType::HostMemCpy);
        v.push(ContractCostType::HostMemCmp);
        v.push(ContractCostType::DispatchHostFunction);
        v.push(ContractCostType::VisitObject);
        v.push(ContractCostType::ValSer);
        v.push(ContractCostType::ValDeser);
        v.push(ContractCostType::ComputeSha256Hash);
        v.push(ContractCostType::ComputeEd25519PubKey);
        v.push(ContractCostType::MapEntry);
        v.push(ContractCostType::VecEntry);
        v.push(ContractCostType::VerifyEd25519Sig);
        v.push(ContractCostType::VmMemRead);
        v.push(ContractCostType::VmMemWrite);
        v.push(ContractCostType::VmInstantiation);
        v.push(ContractCostType::VmCachedInstantiation);
        v.push(ContractCostType::InvokeVmFunction);
        v.push(ContractCostType::ComputeKeccak256Hash);
        v.push(ContractCostType::ComputeEcdsaSecp256k1Key);
        v.push(ContractCostType::ComputeEcdsaSecp256k1Sig);
        v.push(ContractCostType::RecoverEcdsaSecp256k1Key);
        v.push(ContractCostType::Int256AddSub);
        v.push(ContractCostType::Int256Mul);
        v.push(ContractCostType::Int256Div);
        v.push(ContractCostType::Int256Pow);
        v.push(ContractCostType::Int256Shift);
        v
    }
}

} // verus!

verus! {

/// One resource dimension (CPU instructions or memory bytes): a table of
/// cost models indexed by cost-type ordinal, per-type output counters, their
/// saturating sum, and the limit the sum is compared against.
#[derive(Clone, Debug)]
pub struct BudgetDimension {
    /// Cost models, indexed by `ContractCostType` ordinal.
    pub cost_models: Vec<MeteredCostComponent>,
    /// The limit against which the total count is compared to decide whether
    /// the dimension is over budget.
    pub limit: u64,
    /// Output of the per-cost-type models, accumulated with saturation.
    pub counts: Vec<u64>,
    /// Saturating sum of all outputs, compared against `limit`.
    pub total_count: u64,
}

impl BudgetDimension {
    /// Both tables have one slot per schedule entry.
    pub open spec fn wf(&self) -> bool {
        self.counts@.len() == self.cost_models@.len()
    }

    /// Whether this dimension's tables cover the given cost type.
    pub open spec fn covers(&self, ty: ContractCostType) -> bool {
        ty.index_spec() < self.cost_models@.len()
    }

    pub open spec fn model_of(&self, ty: ContractCostType) -> MeteredCostComponent {
        self.cost_models@[ty.index_spec() as int]
    }

    /// The saturating amount a charge adds to this dimension:
    /// `evaluate(input) * iterations`.
    pub open spec fn charge_amount(
        &self,
        ty: ContractCostType,
        iterations: u64,
        input: Option<u64>,
    ) -> u64 {
        sat_mul(eval_model(self.model_of(ty), input), iterations)
    }

    /// A fresh dimension: one zeroed model and counter per cost type, and a
    /// zero limit.
    pub fn new() -> (r: BudgetDimension)
        ensures
            r.wf(),
            r.cost_models@.len() == COST_TYPES_COUNT,
            forall|i: int|
                0 <= i < COST_TYPES_COUNT ==> #[trigger] r.cost_models@[i]
                    == (MeteredCostComponent { const_term: 0, lin_term: ScaledU64(0) }),
            forall|i: int| 0 <= i < COST_TYPES_COUNT ==> #[trigger] r.counts@[i] == 0u64,
            r.limit == 0,
            r.total_count == 0,
    {
        let n: usize = COST_TYPES_COUNT;
        let cost_models: Vec<MeteredCostComponent> = vec![MeteredCostComponent {
            const_term: 0,
            lin_term: ScaledU64(0),
        };n];
        let counts: Vec<u64> = vec![0u64;n];
        BudgetDimension { cost_models, limit: 0, counts, total_count: 0 }
    }

    /// Consumes an ordered cost schedule. Any negative term is rejected with
    /// `(Context, InvalidInput)`; otherwise the model table has exactly one
    /// validated entry per schedule entry (the schedule carries its own
    /// length, which the dimension trusts) and the limit and counters are
    /// zero.
    pub fn try_from_config(cost_params: &Vec<ContractCostParamEntry>) -> (r: Result<
        BudgetDimension,
        HostError,
    >)
        ensures
            (forall|i: int|
                0 <= i < cost_params@.len() ==> #[trigger] cost_params@[i].const_term >= 0
                    && cost_params@[i].linear_term >= 0) <==> r is Ok,
            r matches Ok(d) ==> {
                &&& d.wf()
                &&& d.cost_models@.len() == cost_params@.len()
                &&& forall|i: int|
                    0 <= i < cost_params@.len() ==> #[trigger] d.cost_models@[i]
                        == (MeteredCostComponent {
                        const_term: cost_params@[i].const_term as u64,
                        lin_term: ScaledU64(cost_params@[i].linear_term as u64),
                    })
                &&& forall|i: int| 0 <= i < d.counts@.len() ==> #[trigger] d.counts@[i] == 0u64
                &&& d.limit == 0
                &&& d.total_count == 0
            },
            r matches Err(e) ==> e == (Error {
                error_type: ScErrorType::Context,
                code: ScErrorCode::InvalidInput,
            }),
    {
        let mut cost_models: Vec<MeteredCostComponent> = Vec::new();
        let mut counts: Vec<u64> = Vec::new();
        let n = cost_params.len();
        let mut i: usize = 0;
        while i < n
            invariant
                i <= n,
                n == cost_params@.len(),
                cost_models@.len() == i,
                counts@.len() == i,
                forall|j: int|
                    0 <= j < i ==> #[trigger] cost_params@[j].const_term >= 0
                        && cost_params@[j].linear_term >= 0,
                forall|j: int|
                    0 <= j < i ==> #[trigger] cost_models@[j] == (MeteredCostComponent {
                        const_term: cost_params@[j].const_term as u64,
                        lin_term: ScaledU64(cost_params@[j].linear_term as u64),
                    }),
                forall|j: int| 0 <= j < i ==> #[trigger] counts@[j] == 0u64,
            decreases n - i,
        {
            let entry = &cost_params[i];
            match MeteredCostComponent::try_from_entry(entry) {
                Ok(m) => cost_models.push(m),
                Err(e) => {
                    return Err(e);
                },
            }
            counts.push(0);
            i += 1;
        }
        Ok(BudgetDimension { cost_models, limit: 0, counts, total_count: 0 })
    }

    /// The model the given cost type maps to.
    pub fn get_cost_model(&self, ty: ContractCostType) -> (r: &MeteredCostComponent)
        requires
            self.covers(ty),
        ensures
            *r == self.model_of(ty),
    {
        &self.cost_models[ty.index()]
    }

    /// Overwrites the model the given cost type maps to.
    pub fn set_cost_model(&mut self, ty: ContractCostType, model: MeteredCostComponent)
        requires
            old(self).covers(ty),
        ensures
            final(self).cost_models@ == old(self).cost_models@.update(
                ty.index_spec() as int,
                model,
            ),
            final(self).limit == old(self).limit,
            final(self).counts == old(self).counts,
            final(self).total_count == old(self).total_count,
    {
        let idx = ty.index();
        self.cost_models[idx] = model;
    }

    /// The accumulated output of the given cost type's model.
    pub fn get_count(&self, ty: ContractCostType) -> (r: u64)
        requires
            self.wf(),
            self.covers(ty),
        ensures
            r == self.counts@[ty.index_spec() as int],
    {
        self.counts[ty.index()]
    }

    pub fn get_total_count(&self) -> (r: u64)
        ensures
            r == self.total_count,
    {
        self.total_count
    }

    pub fn get_limit(&self) -> (r: u64)
        ensures
            r == self.limit,
    {
        self.limit
    }

    /// Saturating `limit - total_count`.
    pub fn get_remaining(&self) -> (r: u64)
        ensures
            r == sat_sub(self.limit, self.total_count),
    {
        self.limit.saturating_sub(self.total_count)
    }

    /// Sets the limit and zeroes the total and every counter; the models are
    /// left untouched.
    pub fn reset(&mut self, limit: u64)
        ensures
            final(self).cost_models == old(self).cost_models,
            final(self).limit == limit,
            final(self).counts@.len() == old(self).counts@.len(),
            forall|i: int| 0 <= i < final(self).counts@.len() ==> #[trigger] final(self).counts@[i] == 0u64,
            final(self).total_count == 0,
    {
        self.limit = limit;
        self.total_count = 0;
        let n = self.counts.len();
        let mut i: usize = 0;
        while i < n
            invariant
                i <= n,
                n == self.counts@.len(),
                self.cost_models == old(self).cost_models,
                self.limit == limit,
                self.total_count == 0,
                forall|j: int| 0 <= j < i ==> #[trigger] self.counts@[j] == 0u64,
            decreases n - i,
        {
            self.counts[i] = 0;
            i += 1;
        }
    }

    /// Whether the saturating total has crossed the limit.
    pub fn is_over_budget(&self) -> (r: bool)
        ensures
            r == (self.total_count > self.limit),
    {
        self.total_count > self.limit
    }

    /// Performs a bulk charge under the given cost type. The amount is
    /// `evaluate(input) * iterations` (saturating); it is added to the
    /// per-type counter and to the total *before* the overrun check, so the
    /// residue of a failed charge stays observable. Fails with
    /// `(Budget, ExceededLimit)` exactly when the updated total exceeds the
    /// limit.
    pub fn charge(&mut self, ty: ContractCostType, iterations: u64, input: Option<u64>) -> (r:
        Result<(), HostError>)
        requires
            old(self).wf(),
            old(self).covers(ty),
        ensures
            final(self).wf(),
            final(self).cost_models == old(self).cost_models,
            final(self).limit == old(self).limit,
            final(self).counts@ == old(self).counts@.update(
                ty.index_spec() as int,
                sat_add(
                    old(self).counts@[ty.index_spec() as int],
                    old(self).charge_amount(ty, iterations, input),
                ),
            ),
            final(self).total_count == sat_add(
                old(self).total_count,
                old(self).charge_amount(ty, iterations, input),
            ),
            r == if sat_add(old(self).total_count, old(self).charge_amount(ty, iterations, input))
                > old(self).limit {
                Err::<(), HostError>(
                    Error { error_type: ScErrorType::Budget, code: ScErrorCode::ExceededLimit },
                )
            } else {
                Ok::<(), HostError>(())
            },
    {
        let cm = self.get_cost_model(ty);
        let amount = match cm.evaluate(input) {
            Ok(v) => saturating_mul_u64(v, iterations),
            Err(e) => {
                return Err(e);
            },
        };
        let idx = ty.index();
        self.counts[idx] = self.counts[idx].saturating_add(amount);
        self.total_count = self.total_count.saturating_add(amount);
        if self.is_over_budget() {
            Err(Error::from_type_and_code(ScErrorType::Budget, ScErrorCode::ExceededLimit))
        } else {
            Ok(())
        }
    }

    /// Zeroes every model's parameters (so that individual ones can be
    /// overridden afterwards).
    pub fn reset_models(&mut self)
        ensures
            final(self).wf() == old(self).wf(),
            final(self).cost_models@.len() == old(self).cost_models@.len(),
            forall|i: int|
                0 <= i < final(self).cost_models@.len() ==> #[trigger] final(self).cost_models@[i]
                    == (MeteredCostComponent { const_term: 0, lin_term: ScaledU64(0) }),
            final(self).limit == old(self).limit,
            final(self).counts == old(self).counts,
            final(self).total_count == old(self).total_count,
    {
        let n = self.cost_models.len();
        let mut i: usize = 0;
        while i < n
            invariant
                i <= n,
                n == self.cost_models@.len(),
                self.counts == old(self).counts,
                self.limit == old(self).limit,
                self.total_count == old(self).total_count,
                forall|j: int|
                    0 <= j < i ==> #[trigger] self.cost_models@[j] == (MeteredCostComponent {
                        const_term: 0,
                        lin_term: ScaledU64(0),
                    }),
            decreases n - i,
        {
            self.cost_models[i] = MeteredCostComponent { const_term: 0, lin_term: ScaledU64(0) };
            i += 1;
        }
    }
}

} // verus!

verus! {

/// Fixed limits reported to the WASM engine.
pub const WASMI_TABLE_ELEMENTS_LIMIT: u32 = 1000;
pub const WASMI_INSTANCES_LIMIT: usize = 1;
pub const WASMI_TABLES_LIMIT: usize = 1;
pub const WASMI_MEMORIES_LIMIT: usize = 1;

/// The configurable subset of the engine's fuel-cost schedule. The fields
/// coarsely define the relative costs of WASM instruction classes, in fuels.
#[derive(Clone, Copy, Debug, PartialEq, Eq, Structural)]
pub struct FuelConfig {
    /// Base fuel cost of every instruction.
    pub base: u64,
    /// Fuel cost of instructions operating on WASM entities (func, global,
    /// memory or table).
    pub entity: u64,
    /// Fuel cost offset of memory loads.
    pub load: u64,
    /// Fuel cost offset of memory stores.
    pub store: u64,
    /// Fuel cost offset of calls.
    pub call: u64,
}

impl Default for FuelConfig {
    /// The calibrated fuel schedule.
    fn default() -> (r: FuelConfig)
        ensures
            r == (FuelConfig { base: 1, entity: 2, load: 1, store: 1, call: 41 }),
    {
        FuelConfig { base: 1, entity: 2, load: 1, store: 1, call: 41 }
    }
}

impl FuelConfig {
    /// The factory schedule used for calibration.
    pub fn reset(&mut self)
        ensures
            *final(self) == (FuelConfig { base: 1, entity: 1, load: 1, store: 1, call: 1 }),
    {
        self.base = 1;
        self.entity = 1;
        self.load = 1;
        self.store = 1;
        self.call = 1;
    }
}

/// Non-authoritative per-cost-type statistics kept for reporting and
/// calibration: for each cost type the saturating sum of iterations and,
/// for linear cost types only, the saturating sum of inputs. The presence of
/// the input accumulator is seeded once at construction and preserved by
/// reset.
#[derive(Clone, Debug)]
pub struct MeterTracker {
    /// `(sum_of_iterations, total_input)` per cost type, by ordinal.
    pub cost_tracker: Vec<(u64, Option<u64>)>,
    /// Total number of times the meter was called.
    pub count: u32,
}

impl MeterTracker {
    /// One zeroed slot per cost type, with no input accumulators yet.
    pub fn new() -> (r: MeterTracker)
        ensures
            r.cost_tracker@.len() == COST_TYPES_COUNT,
            forall|i: int|
                0 <= i < COST_TYPES_COUNT ==> #[trigger] r.cost_tracker@[i] == (
                0u64,
                Option::<u64>::None,
                ),
            r.count == 0,
    {
        let n: usize = COST_TYPES_COUNT;
        let mut cost_tracker: Vec<(u64, Option<u64>)> = Vec::new();
        let mut i: usize = 0;
        while i < n
            invariant
                i <= n,
                cost_tracker@.len() == i,
                forall|j: int|
                    0 <= j < i ==> #[trigger] cost_tracker@[j] == (0u64, Option::<u64>::None),
            decreases n - i,
        {
            cost_tracker.push((0u64, None));
            i += 1;
        }
        MeterTracker { cost_tracker, count: 0 }
    }

    /// Zeroes the call count, every iteration sum, and every input sum while
    /// preserving whether each input sum is present.
    pub fn reset(&mut self)
        ensures
            final(self).count == 0,
            final(self).cost_tracker@.len() == old(self).cost_tracker@.len(),
            forall|i: int|
                0 <= i < old(self).cost_tracker@.len() ==> #[trigger] final(self).cost_tracker@[i]
                    == (
                0u64,
                if old(self).cost_tracker@[i].1 is Some {
                    Some(0u64)
                } else {
                    Option::<u64>::None
                },
                ),
    {
        self.count = 0;
        let n = self.cost_tracker.len();
        let mut i: usize = 0;
        while i < n
            invariant
                i <= n,
                n == self.cost_tracker@.len(),
                self.count == 0,
                forall|j: int|
                    0 <= j < i ==> #[trigger] self.cost_tracker@[j] == (
                    0u64,
                    if old(self).cost_tracker@[j].1 is Some {
                        Some(0u64)
                    } else {
                        Option::<u64>::None
                    },
                    ),
                forall|j: int|
                    i <= j < n ==> #[trigger] self.cost_tracker@[j] == old(self).cost_tracker@[j],
            decreases n - i,
        {
            let slot = self.cost_tracker[i];
            let new_input: Option<u64> = match slot.1 {
                Some(_) => Some(0u64),
                None => None,
            };
            self.cost_tracker[i] = (0u64, new_input);
            i += 1;
        }
    }
}

/// Relates a dimension before and after a successful bookkeeping update for
/// one charge: models and limit unchanged, the charged type's counter and
/// the total bumped by the saturating charge amount.
pub open spec fn dim_charged(
    pre: BudgetDimension,
    post: BudgetDimension,
    ty: ContractCostType,
    iterations: u64,
    input: Option<u64>,
) -> bool {
    &&& post.cost_models == pre.cost_models
    &&& post.limit == pre.limit
    &&& post.counts@ == pre.counts@.update(
        ty.index_spec() as int,
        sat_add(pre.counts@[ty.index_spec() as int], pre.charge_amount(ty, iterations, input)),
    )
    &&& post.total_count == sat_add(pre.total_count, pre.charge_amount(ty, iterations, input))
}

/// Whether charging `ty` on `pre` pushes the dimension's total over its
/// limit.
pub open spec fn dim_over_after(
    pre: BudgetDimension,
    ty: ContractCostType,
    iterations: u64,
    input: Option<u64>,
) -> bool {
    sat_add(pre.total_count, pre.charge_amount(ty, iterations, input)) > pre.limit
}

/// Whether the presence of the tracker's input accumulator matches the
/// presence of the input passed with a charge. A mismatch means the wrong
/// cost type was passed and is an internal error.
pub open spec fn tracker_input_ok(slot_input: Option<u64>, input: Option<u64>) -> bool {
    (slot_input is None && input is None) || (slot_input is Some && input is Some)
}

/// The tracker slot value after recording a charge of `iterations` and
/// `input` on top of `slot`: iterations accumulate saturating; the input
/// accumulator moves by `input * iterations` only when both sides are
/// present, and keeps its value on a presence mismatch.
pub open spec fn tracker_slot_charged(
    slot: (u64, Option<u64>),
    iterations: u64,
    input: Option<u64>,
) -> (u64, Option<u64>) {
    (
        sat_add(slot.0, iterations),
        match (slot.1, input) {
            (Some(t), Some(i)) => Some(sat_add(t, sat_mul(i, iterations))),
            _ => slot.1,
        },
    )
}

/// Relates a tracker before and after recording one charge under `ty`.
pub open spec fn tracker_charged(
    pre: MeterTracker,
    post: MeterTracker,
    ty: ContractCostType,
    iterations: u64,
    input: Option<u64>,
) -> bool {
    &&& post.count == if pre.count + 1 > u32::MAX {
        u32::MAX
    } else {
        (pre.count + 1) as u32
    }
    &&& post.cost_tracker@ == pre.cost_tracker@.update(
        ty.index_spec() as int,
        tracker_slot_charged(pre.cost_tracker@[ty.index_spec() as int], iterations, input),
    )
}

} // verus!

verus! {

/// Every cost type's ordinal indexes a table of `COST_TYPES_COUNT` slots.
pub proof fn lemma_cost_type_index_lt(ct: ContractCostType)
    ensures
        ct.index_spec() < COST_TYPES_COUNT,
{
}

/// The consensus ordinal determines the cost type.
pub proof fn lemma_cost_type_index_injective(a: ContractCostType, b: ContractCostType)
    requires
        a.index_spec() == b.index_spec(),
    ensures
        a == b,
{
}

/// The owned state of a budget: the two resource dimensions, the reporting
/// tracker, the enable flag, the engine fuel schedule, and the remaining
/// host-call depth.
#[derive(Clone, Debug)]
pub struct BudgetImpl {
    pub cpu_insns: BudgetDimension,
    pub mem_bytes: BudgetDimension,
    /// For calibration and reporting only; never used for limiting.
    pub tracker: MeterTracker,
    pub enabled: bool,
    pub fuel_config: FuelConfig,
    pub depth_limit: u32,
}

impl BudgetImpl {
    pub open spec fn wf(&self) -> bool {
        &&& self.cpu_insns.wf()
        &&& self.mem_bytes.wf()
        &&& self.tracker.cost_tracker@.len() == COST_TYPES_COUNT
    }

    /// Whether both dimensions' tables cover the given cost type.
    pub open spec fn covers(&self, ty: ContractCostType) -> bool {
        self.cpu_insns.covers(ty) && self.mem_bytes.covers(ty)
    }

    /// Seeds the tracker's input accumulators: linear cost types get a
    /// `Some(0)` input sum, constant ones keep no input sum. This is a
    /// one-shot step during construction.
    pub fn init_tracker(&mut self)
        requires
            old(self).tracker.cost_tracker@.len() == COST_TYPES_COUNT,
        ensures
            final(self).cpu_insns == old(self).cpu_insns,
            final(self).mem_bytes == old(self).mem_bytes,
            final(self).enabled == old(self).enabled,
            final(self).fuel_config == old(self).fuel_config,
            final(self).depth_limit == old(self).depth_limit,
            final(self).tracker.count == old(self).tracker.count,
            final(self).tracker.cost_tracker@.len() == COST_TYPES_COUNT,
            forall|ct: ContractCostType|
                #[trigger] final(self).tracker.cost_tracker@[ct.index_spec() as int] == (
                old(self).tracker.cost_tracker@[ct.index_spec() as int].0,
                if ct.input_defined_spec() {
                    Some(0u64)
                } else {
                    old(self).tracker.cost_tracker@[ct.index_spec() as int].1
                },
                ),
    {
        let vs = ContractCostType::variants();
        let n = vs.len();
        let mut i: usize = 0;
        while i < n
            invariant
                n == COST_TYPES_COUNT,
                vs@.len() == COST_TYPES_COUNT,
                forall|k: int| 0 <= k < vs@.len() ==> #[trigger] vs@[k].index_spec() == k,
                i <= n,
                self.cpu_insns == old(self).cpu_insns,
                self.mem_bytes == old(self).mem_bytes,
                self.enabled == old(self).enabled,
                self.fuel_config == old(self).fuel_config,
                self.depth_limit == old(self).depth_limit,
                self.tracker.count == old(self).tracker.count,
                self.tracker.cost_tracker@.len() == COST_TYPES_COUNT,
                forall|j: int|
                    0 <= j < i ==> #[trigger] self.tracker.cost_tracker@[j] == (
                    old(self).tracker.cost_tracker@[j].0,
                    if vs@[j].input_defined_spec() {
                        Some(0u64)
                    } else {
                        old(self).tracker.cost_tracker@[j].1
                    },
                    ),
                forall|j: int|
                    i <= j < COST_TYPES_COUNT ==> #[trigger] self.tracker.cost_tracker@[j] == old(
                        self,
                    ).tracker.cost_tracker@[j],
            decreases n - i,
        {
            let ct = vs[i];
            if ct.input_defined() {
                let slot = self.tracker.cost_tracker[i];
                self.tracker.cost_tracker[i] = (slot.0, Some(0u64));
            }
            i += 1;
        }
        proof {
            assert forall|ct: ContractCostType|
                #[trigger] self.tracker.cost_tracker@[ct.index_spec() as int] == (
                old(self).tracker.cost_tracker@[ct.index_spec() as int].0,
                if ct.input_defined_spec() {
                    Some(0u64)
                } else {
                    old(self).tracker.cost_tracker@[ct.index_spec() as int].1
                },
                ) by {
                lemma_cost_type_index_lt(ct);
                let j = ct.index_spec() as int;
                lemma_cost_type_index_injective(vs@[j], ct);
            }
        }
    }

    /// Records one (possibly bulk) charge in the tracker, then charges the
    /// CPU dimension and, if that stays within limit, the memory dimension.
    /// Disabled budgets return success without any side effect. A mismatch
    /// between the tracker's input slot and the call's input presence fails
    /// with `(Context, InternalError)` after the tracker update and before
    /// any dimension is charged; an overrun of either dimension fails with
    /// `(Budget, ExceededLimit)`, CPU first.
    pub fn charge(&mut self, ty: ContractCostType, iterations: u64, input: Option<u64>) -> (r:
        Result<(), HostError>)
        requires
            old(self).wf(),
            old(self).covers(ty),
        ensures
            final(self).wf(),
            final(self).covers(ty),
            final(self).enabled == old(self).enabled,
            final(self).fuel_config == old(self).fuel_config,
            final(self).depth_limit == old(self).depth_limit,
            !old(self).enabled ==> *final(self) == *old(self) && r == Ok::<(), HostError>(()),
            old(self).enabled ==> {
                let slot = old(self).tracker.cost_tracker@[ty.index_spec() as int];
                &&& tracker_charged(old(self).tracker, final(self).tracker, ty, iterations, input)
                &&& if !tracker_input_ok(slot.1, input) {
                    &&& final(self).cpu_insns == old(self).cpu_insns
                    &&& final(self).mem_bytes == old(self).mem_bytes
                    &&& r == Err::<(), HostError>(
                        Error {
                            error_type: ScErrorType::Context,
                            code: ScErrorCode::InternalError,
                        },
                    )
                } else if dim_over_after(old(self).cpu_insns, ty, iterations, input) {
                    &&& dim_charged(
                        old(self).cpu_insns,
                        final(self).cpu_insns,
                        ty,
                        iterations,
                        input,
                    )
                    &&& final(self).mem_bytes == old(self).mem_bytes
                    &&& r == Err::<(), HostError>(
                        Error { error_type: ScErrorType::Budget, code: ScErrorCode::ExceededLimit },
                    )
                } else {
                    &&& dim_charged(
                        old(self).cpu_insns,
                        final(self).cpu_insns,
                        ty,
                        iterations,
                        input,
                    )
                    &&& dim_charged(
                        old(self).mem_bytes,
                        final(self).mem_bytes,
                        ty,
                        iterations,
                        input,
                    )
                    &&& r == if dim_over_after(old(self).mem_bytes, ty, iterations, input) {
                        Err::<(), HostError>(
                            Error {
                                error_type: ScErrorType::Budget,
                                code: ScErrorCode::ExceededLimit,
                            },
                        )
                    } else {
                        Ok::<(), HostError>(())
                    }
                }
            },
    {
        if !self.enabled {
            return Ok(());
        }
        proof {
            lemma_cost_type_index_lt(ty);
        }
        // Update the tracker for reporting.
        self.tracker.count = self.tracker.count.saturating_add(1);
        let idx = ty.index();
        let slot = self.tracker.cost_tracker[idx];
        let t_iters = slot.0.saturating_add(iterations);
        let new_input: Option<u64> = match (slot.1, input) {
            (None, None) => None,
            (Some(t), Some(i)) => Some(t.saturating_add(saturating_mul_u64(i, iterations))),
            _ => {
                // A wrong cost type was passed in: an internal logic error.
                self.tracker.cost_tracker[idx] = (t_iters, slot.1);
                return Err(
                    Error::from_type_and_code(ScErrorType::Context, ScErrorCode::InternalError),
                );
            },
        };
        self.tracker.cost_tracker[idx] = (t_iters, new_input);
        // The actual budget charging.
        match self.cpu_insns.charge(ty, iterations, input) {
            Ok(u) => u,
            Err(e) => {
                return Err(e);
            },
        };
        self.mem_bytes.charge(ty, iterations, input)
    }

    /// Remaining engine fuel: remaining CPU divided by the CPU cost of one
    /// fuel (the `WasmInsnExec` constant term, floored at one). The rounding
    /// loss is below one `cpu_per_fuel` and is accepted.
    pub fn get_wasmi_fuel_remaining(&self) -> (r: Result<u64, HostError>)
        requires
            self.cpu_insns.covers(ContractCostType::WasmInsnExec),
        ensures
            r == Ok::<u64, HostError>(
                sat_sub(self.cpu_insns.limit, self.cpu_insns.total_count) / (if self.cpu_insns.model_of(
                    ContractCostType::WasmInsnExec,
                ).const_term < 1 {
                    1u64
                } else {
                    self.cpu_insns.model_of(ContractCostType::WasmInsnExec).const_term
                }),
            ),
    {
        let cpu_remaining = self.cpu_insns.get_remaining();
        let c = self.cpu_insns.get_cost_model(ContractCostType::WasmInsnExec).const_term;
        let cpu_per_fuel = if c < 1 {
            1
        } else {
            c
        };
        Ok(cpu_remaining / cpu_per_fuel)
    }

    /// One step deeper into a host call: decrements the remaining depth and
    /// fails with `(Context, ExceededLimit)` when none is left.
    pub fn enter(&mut self) -> (r: Result<(), HostError>)
        ensures
            final(self).cpu_insns == old(self).cpu_insns,
            final(self).mem_bytes == old(self).mem_bytes,
            final(self).tracker == old(self).tracker,
            final(self).enabled == old(self).enabled,
            final(self).fuel_config == old(self).fuel_config,
            old(self).depth_limit > 0 ==> final(self).depth_limit == old(self).depth_limit - 1 && r
                == Ok::<(), HostError>(()),
            old(self).depth_limit == 0 ==> final(self).depth_limit == 0 && r == Err::<
                (),
                HostError,
            >(Error { error_type: ScErrorType::Context, code: ScErrorCode::ExceededLimit }),
    {
        match self.depth_limit.checked_sub(1) {
            Some(depth) => {
                self.depth_limit = depth;
                Ok(())
            },
            None => Err(
                Error::from_type_and_code(ScErrorType::Context, ScErrorCode::ExceededLimit),
            ),
        }
    }

    /// One step back out of a host call. `leave` is called in tandem with
    /// `enter`; unbalanced use saturates instead of overflowing.
    pub fn leave(&mut self) -> (r: Result<(), HostError>)
        ensures
            final(self).cpu_insns == old(self).cpu_insns,
            final(self).mem_bytes == old(self).mem_bytes,
            final(self).tracker == old(self).tracker,
            final(self).enabled == old(self).enabled,
            final(self).fuel_config == old(self).fuel_config,
            final(self).depth_limit == if old(self).depth_limit + 1 > u32::MAX {
                u32::MAX
            } else {
                (old(self).depth_limit + 1) as u32
            },
            r == Ok::<(), HostError>(()),
    {
        self.depth_limit = self.depth_limit.saturating_add(1);
        Ok(())
    }

    /// Initializes a budget from network configuration: validated cost
    /// schedules for both dimensions, the given limits, a freshly seeded
    /// tracker, metering enabled, the default fuel schedule and the default
    /// depth limit.
    pub fn try_from_configs(
        cpu_limit: u64,
        mem_limit: u64,
        cpu_cost_params: &Vec<ContractCostParamEntry>,
        mem_cost_params: &Vec<ContractCostParamEntry>,
    ) -> (r: Result<BudgetImpl, HostError>)
        ensures
            r is Ok <==> (forall|i: int|
                0 <= i < cpu_cost_params@.len() ==> #[trigger] cpu_cost_params@[i].const_term >= 0
                    && cpu_cost_params@[i].linear_term >= 0) && (forall|i: int|
                0 <= i < mem_cost_params@.len() ==> #[trigger] mem_cost_params@[i].const_term >= 0
                    && mem_cost_params@[i].linear_term >= 0),
            r matches Err(e) ==> e == (Error {
                error_type: ScErrorType::Context,
                code: ScErrorCode::InvalidInput,
            }),
            r matches Ok(b) ==> {
                &&& b.wf()
                &&& b.cpu_insns.cost_models@.len() == cpu_cost_params@.len()
                &&& forall|i: int|
                    0 <= i < cpu_cost_params@.len() ==> #[trigger] b.cpu_insns.cost_models@[i]
                        == (MeteredCostComponent {
                        const_term: cpu_cost_params@[i].const_term as u64,
                        lin_term: ScaledU64(cpu_cost_params@[i].linear_term as u64),
                    })
                &&& b.mem_bytes.cost_models@.len() == mem_cost_params@.len()
                &&& forall|i: int|
                    0 <= i < mem_cost_params@.len() ==> #[trigger] b.mem_bytes.cost_models@[i]
                        == (MeteredCostComponent {
                        const_term: mem_cost_params@[i].const_term as u64,
                        lin_term: ScaledU64(mem_cost_params@[i].linear_term as u64),
                    })
                &&& b.cpu_insns.limit == cpu_limit
                &&& b.mem_bytes.limit == mem_limit
                &&& b.cpu_insns.total_count == 0
                &&& b.mem_bytes.total_count == 0
                &&& forall|i: int|
                    0 <= i < b.cpu_insns.counts@.len() ==> #[trigger] b.cpu_insns.counts@[i] == 0u64
                &&& forall|i: int|
                    0 <= i < b.mem_bytes.counts@.len() ==> #[trigger] b.mem_bytes.counts@[i] == 0u64
                &&& b.tracker.count == 0
                &&& forall|ct: ContractCostType|
                    #[trigger] b.tracker.cost_tracker@[ct.index_spec() as int] == (
                    0u64,
                    if ct.input_defined_spec() {
                        Some(0u64)
                    } else {
                        Option::<u64>::None
                    },
                    )
                &&& b.enabled == true
                &&& b.fuel_config == (FuelConfig { base: 1, entity: 2, load: 1, store: 1, call: 41 })
                &&& b.depth_limit == DEFAULT_HOST_DEPTH_LIMIT
            },
    {
        let cpu_insns = match BudgetDimension::try_from_config(cpu_cost_params) {
            Ok(d) => d,
            Err(e) => {
                return Err(e);
            },
        };
        let mem_bytes = match BudgetDimension::try_from_config(mem_cost_params) {
            Ok(d) => d,
            Err(e) => {
                return Err(e);
            },
        };
        let mut b = BudgetImpl {
            cpu_insns,
            mem_bytes,
            tracker: MeterTracker::new(),
            enabled: true,
            fuel_config: FuelConfig::default(),
            depth_limit: DEFAULT_HOST_DEPTH_LIMIT,
        };
        b.init_tracker();
        b.cpu_insns.reset(cpu_limit);
        b.mem_bytes.reset(mem_limit);
        Ok(b)
    }
}

} // verus!

verus! {

/// The consensus-critical default CPU cost model of each cost type, as
/// `(const_term, scaled lin_term)`.
pub open spec fn default_cpu_model(ct: ContractCostType) -> MeteredCostComponent {
    match ct {
        ContractCostType::WasmInsnExec => MeteredCostComponent {
            const_term: 6,
            lin_term: ScaledU64(0),
        },
        ContractCostType::WasmMemAlloc => MeteredCostComponent {
            const_term: 0,
            lin_term: ScaledU64(0),
        },
        ContractCostType::HostMemAlloc => MeteredCostComponent {
            const_term: 1141,
            lin_term: ScaledU64(1),
        },
        ContractCostType::HostMemCpy => MeteredCostComponent {
            const_term: 39,
            lin_term: ScaledU64(24),
        },
        ContractCostType::HostMemCmp => MeteredCostComponent {
            const_term: 20,
            lin_term: ScaledU64(64),
        },
        ContractCostType::DispatchHostFunction => MeteredCostComponent {
            const_term: 263,
            lin_term: ScaledU64(0),
        },
        ContractCostType::VisitObject => MeteredCostComponent {
            const_term: 108,
            lin_term: ScaledU64(0),
        },
        ContractCostType::ValSer => MeteredCostComponent {
            const_term: 591,
            lin_term: ScaledU64(69),
        },
        ContractCostType::ValDeser => MeteredCostComponent {
            const_term: 1112,
            lin_term: ScaledU64(34),
        },
        ContractCostType::ComputeSha256Hash => MeteredCostComponent {
            const_term: 2924,
            lin_term: ScaledU64(4149),
        },
        ContractCostType::ComputeEd25519PubKey => MeteredCostComponent {
            const_term: 25584,
            lin_term: ScaledU64(0),
        },
        ContractCostType::MapEntry => MeteredCostComponent {
            const_term: 53,
            lin_term: ScaledU64(0),
        },
        ContractCostType::VecEntry => MeteredCostComponent {
            const_term: 0,
            lin_term: ScaledU64(0),
        },
        ContractCostType::VerifyEd25519Sig => MeteredCostComponent {
            const_term: 376877,
            lin_term: ScaledU64(2747),
        },
        ContractCostType::VmMemRead => MeteredCostComponent {
            const_term: 182,
            lin_term: ScaledU64(24),
        },
        ContractCostType::VmMemWrite => MeteredCostComponent {
            const_term: 182,
            lin_term: ScaledU64(24),
        },
        ContractCostType::VmInstantiation => MeteredCostComponent {
            const_term: 967154,
            lin_term: ScaledU64(69991),
        },
        ContractCostType::VmCachedInstantiation => MeteredCostComponent {
            const_term: 967154,
            lin_term: ScaledU64(69991),
        },
        ContractCostType::InvokeVmFunction => MeteredCostComponent {
            const_term: 1125,
            lin_term: ScaledU64(0),
        },
        ContractCostType::ComputeKeccak256Hash => MeteredCostComponent {
            const_term: 2890,
            lin_term: ScaledU64(3561),
        },
        ContractCostType::ComputeEcdsaSecp256k1Key => MeteredCostComponent {
            const_term: 38363,
            lin_term: ScaledU64(0),
        },
        ContractCostType::ComputeEcdsaSecp256k1Sig => MeteredCostComponent {
            const_term: 224,
            lin_term: ScaledU64(0),
        },
        ContractCostType::RecoverEcdsaSecp256k1Key => MeteredCostComponent {
            const_term: 1666155,
            lin_term: ScaledU64(0),
        },
        ContractCostType::Int256AddSub => MeteredCostComponent {
            const_term: 1716,
            lin_term: ScaledU64(0),
        },
        ContractCostType::Int256Mul => MeteredCostComponent {
            const_term: 2226,
            lin_term: ScaledU64(0),
        },
        ContractCostType::Int256Div => MeteredCostComponent {
            const_term: 2333,
            lin_term: ScaledU64(0),
        },
        ContractCostType::Int256Pow => MeteredCostComponent {
            const_term: 5212,
            lin_term: ScaledU64(0),
        },
        ContractCostType::Int256Shift => MeteredCostComponent {
            const_term: 412,
            lin_term: ScaledU64(0),
        },
    }
}

/// The consensus-critical default memory cost model of each cost type.
pub open spec fn default_mem_model(ct: ContractCostType) -> MeteredCostComponent {
    match ct {
        ContractCostType::WasmInsnExec => MeteredCostComponent {
            const_term: 0,
            lin_term: ScaledU64(0),
        },
        ContractCostType::WasmMemAlloc => MeteredCostComponent {
            const_term: 1,
            lin_term: ScaledU64(0),
        },
        ContractCostType::HostMemAlloc => MeteredCostComponent {
            const_term: 16,
            lin_term: ScaledU64(128),
        },
        ContractCostType::HostMemCpy => MeteredCostComponent {
            const_term: 0,
            lin_term: ScaledU64(0),
        },
        ContractCostType::HostMemCmp => MeteredCostComponent {
            const_term: 0,
            lin_term: ScaledU64(0),
        },
        ContractCostType::DispatchHostFunction => MeteredCostComponent {
            const_term: 0,
            lin_term: ScaledU64(0),
        },
        ContractCostType::VisitObject => MeteredCostComponent {
            const_term: 0,
            lin_term: ScaledU64(0),
        },
        ContractCostType::ValSer => MeteredCostComponent {
            const_term: 18,
            lin_term: ScaledU64(384),
        },
        ContractCostType::ValDeser => MeteredCostComponent {
            const_term: 16,
            lin_term: ScaledU64(128),
        },
        ContractCostType::ComputeSha256Hash => MeteredCostComponent {
            const_term: 40,
            lin_term: ScaledU64(0),
        },
        ContractCostType::ComputeEd25519PubKey => MeteredCostComponent {
            const_term: 0,
            lin_term: ScaledU64(0),
        },
        ContractCostType::MapEntry => MeteredCostComponent {
            const_term: 0,
            lin_term: ScaledU64(0),
        },
        ContractCostType::VecEntry => MeteredCostComponent {
            const_term: 0,
            lin_term: ScaledU64(0),
        },
        ContractCostType::VerifyEd25519Sig => MeteredCostComponent {
            const_term: 0,
            lin_term: ScaledU64(0),
        },
        ContractCostType::VmMemRead => MeteredCostComponent {
            const_term: 0,
            lin_term: ScaledU64(0),
        },
        ContractCostType::VmMemWrite => MeteredCostComponent {
            const_term: 0,
            lin_term: ScaledU64(0),
        },
        ContractCostType::VmInstantiation => MeteredCostComponent {
            const_term: 131103,
            lin_term: ScaledU64(5080),
        },
        ContractCostType::VmCachedInstantiation => MeteredCostComponent {
            const_term: 131103,
            lin_term: ScaledU64(5080),
        },
        ContractCostType::InvokeVmFunction => MeteredCostComponent {
            const_term: 14,
            lin_term: ScaledU64(0),
        },
        ContractCostType::ComputeKeccak256Hash => MeteredCostComponent {
            const_term: 40,
            lin_term: ScaledU64(0),
        },
        ContractCostType::ComputeEcdsaSecp256k1Key => MeteredCostComponent {
            const_term: 0,
            lin_term: ScaledU64(0),
        },
        ContractCostType::ComputeEcdsaSecp256k1Sig => MeteredCostComponent {
            const_term: 0,
            lin_term: ScaledU64(0),
        },
        ContractCostType::RecoverEcdsaSecp256k1Key => MeteredCostComponent {
            const_term: 201,
            lin_term: ScaledU64(0),
        },
        ContractCostType::Int256AddSub => MeteredCostComponent {
            const_term: 119,
            lin_term: ScaledU64(0),
        },
        ContractCostType::Int256Mul => MeteredCostComponent {
            const_term: 119,
            lin_term: ScaledU64(0),
        },
        ContractCostType::Int256Div => MeteredCostComponent {
            const_term: 119,
            lin_term: ScaledU64(0),
        },
        ContractCostType::Int256Pow => MeteredCostComponent {
            const_term: 119,
            lin_term: ScaledU64(0),
        },
        ContractCostType::Int256Shift => MeteredCostComponent {
            const_term: 119,
            lin_term: ScaledU64(0),
        },
    }
}

/// A budget freshly initialized with the calibrated default tables, default
/// limits, a seeded tracker, metering enabled, the default fuel schedule and
/// the default depth limit.
pub open spec fn is_default_budget(b: BudgetImpl) -> bool {
    &&& b.wf()
    &&& b.cpu_insns.cost_models@.len() == COST_TYPES_COUNT
    &&& b.mem_bytes.cost_models@.len() == COST_TYPES_COUNT
    &&& forall|ct: ContractCostType| #[trigger] b.cpu_insns.model_of(ct) == default_cpu_model(ct)
    &&& forall|ct: ContractCostType| #[trigger] b.mem_bytes.model_of(ct) == default_mem_model(ct)
    &&& b.cpu_insns.limit == DEFAULT_CPU_INSN_LIMIT
    &&& b.mem_bytes.limit == DEFAULT_MEM_BYTES_LIMIT
    &&& b.cpu_insns.total_count == 0
    &&& b.mem_bytes.total_count == 0
    &&& forall|i: int| 0 <= i < COST_TYPES_COUNT ==> #[trigger] b.cpu_insns.counts@[i] == 0u64
    &&& forall|i: int| 0 <= i < COST_TYPES_COUNT ==> #[trigger] b.mem_bytes.counts@[i] == 0u64
    &&& b.tracker.count == 0
    &&& forall|ct: ContractCostType|
        #[trigger] b.tracker.cost_tracker@[ct.index_spec() as int] == (
        0u64,
        if ct.input_defined_spec() {
            Some(0u64)
        } else {
            Option::<u64>::None
        },
        )
    &&& b.enabled == true
    &&& b.fuel_config == (FuelConfig { base: 1, entity: 2, load: 1, store: 1, call: 41 })
    &&& b.depth_limit == DEFAULT_HOST_DEPTH_LIMIT
}

impl Default for BudgetImpl {
    /// The local/sandbox default: the calibration constants of the consensus
    /// schedule and the default network limits. Production budgets use
    /// [`BudgetImpl::try_from_configs`] with on-chain parameters instead.
    fn default() -> (r: BudgetImpl)
        ensures
            is_default_budget(r),
    {
        let mut b = BudgetImpl {
            cpu_insns: BudgetDimension::new(),
            mem_bytes: BudgetDimension::new(),
            tracker: MeterTracker::new(),
            enabled: true,
            fuel_config: FuelConfig::default(),
            depth_limit: DEFAULT_HOST_DEPTH_LIMIT,
        };
        let vs = ContractCostType::variants();
        let n = vs.len();
        let mut i: usize = 0;
        while i < n
            invariant
                n == COST_TYPES_COUNT,
                vs@.len() == COST_TYPES_COUNT,
                forall|k: int| 0 <= k < vs@.len() ==> #[trigger] vs@[k].index_spec() == k,
                i <= n,
                b.cpu_insns.wf(),
                b.mem_bytes.wf(),
                b.cpu_insns.cost_models@.len() == COST_TYPES_COUNT,
                b.mem_bytes.cost_models@.len() == COST_TYPES_COUNT,
                forall|j: int|
                    0 <= j < i ==> #[trigger] b.cpu_insns.cost_models@[j] == default_cpu_model(
                        vs@[j],
                    ),
                forall|j: int|
                    0 <= j < i ==> #[trigger] b.mem_bytes.cost_models@[j] == default_mem_model(
                        vs@[j],
                    ),
                forall|j: int| 0 <= j < COST_TYPES_COUNT ==> #[trigger] b.cpu_insns.counts@[j] == 0u64,
                forall|j: int| 0 <= j < COST_TYPES_COUNT ==> #[trigger] b.mem_bytes.counts@[j] == 0u64,
                b.cpu_insns.limit == 0,
                b.mem_bytes.limit == 0,
                b.cpu_insns.total_count == 0,
                b.mem_bytes.total_count == 0,
                b.tracker.count == 0,
                b.tracker.cost_tracker@.len() == COST_TYPES_COUNT,
                forall|j: int|
                    0 <= j < COST_TYPES_COUNT ==> #[trigger] b.tracker.cost_tracker@[j] == (
                    0u64,
                    Option::<u64>::None,
                    ),
                b.enabled == true,
                b.fuel_config == (FuelConfig { base: 1, entity: 2, load: 1, store: 1, call: 41 }),
                b.depth_limit == DEFAULT_HOST_DEPTH_LIMIT,
            decreases n - i,
        {
            let ct = vs[i];
            let cpu = default_cpu_model_exec(ct);
            let mem = default_mem_model_exec(ct);
            b.cpu_insns.set_cost_model(ct, cpu);
            b.mem_bytes.set_cost_model(ct, mem);
            i += 1;
        }
        b.init_tracker();
        b.cpu_insns.reset(DEFAULT_CPU_INSN_LIMIT);
        b.mem_bytes.reset(DEFAULT_MEM_BYTES_LIMIT);
        proof {
            assert forall|ct: ContractCostType| #[trigger] b.cpu_insns.model_of(ct)
                == default_cpu_model(ct) by {
                lemma_cost_type_index_lt(ct);
                lemma_cost_type_index_injective(vs@[ct.index_spec() as int], ct);
            }
            assert forall|ct: ContractCostType| #[trigger] b.mem_bytes.model_of(ct)
                == default_mem_model(ct) by {
                lemma_cost_type_index_lt(ct);
                lemma_cost_type_index_injective(vs@[ct.index_spec() as int], ct);
            }
        }
        b
    }
}

/// Executable lookup of the default CPU model table.
pub fn default_cpu_model_exec(ct: ContractCostType) -> (r: MeteredCostComponent)
    ensures
        r == default_cpu_model(ct),
{
    match ct {
        ContractCostType::WasmInsnExec => MeteredCostComponent {
            const_term: 6,
            lin_term: ScaledU64(0),
        },
        ContractCostType::WasmMemAlloc => MeteredCostComponent {
            const_term: 0,
            lin_term: ScaledU64(0),
        },
        ContractCostType::HostMemAlloc => MeteredCostComponent {
            const_term: 1141,
            lin_term: ScaledU64(1),
        },
        ContractCostType::HostMemCpy => MeteredCostComponent {
            const_term: 39,
            lin_term: ScaledU64(24),
        },
        ContractCostType::HostMemCmp => MeteredCostComponent {
            const_term: 20,
            lin_term: ScaledU64(64),
        },
        ContractCostType::DispatchHostFunction => MeteredCostComponent {
            const_term: 263,
            lin_term: ScaledU64(0),
        },
        ContractCostType::VisitObject => MeteredCostComponent {
            const_term: 108,
            lin_term: ScaledU64(0),
        },
        ContractCostType::ValSer => MeteredCostComponent {
            const_term: 591,
            lin_term: ScaledU64(69),
        },
        ContractCostType::ValDeser => MeteredCostComponent {
            const_term: 1112,
            lin_term: ScaledU64(34),
        },
        ContractCostType::ComputeSha256Hash => MeteredCostComponent {
            const_term: 2924,
            lin_term: ScaledU64(4149),
        },
        ContractCostType::ComputeEd25519PubKey => MeteredCostComponent {
            const_term: 25584,
            lin_term: ScaledU64(0),
        },
        ContractCostType::MapEntry => MeteredCostComponent {
            const_term: 53,
            lin_term: ScaledU64(0),
        },
        ContractCostType::VecEntry => MeteredCostComponent {
            const_term: 0,
            lin_term: ScaledU64(0),
        },
        ContractCostType::VerifyEd25519Sig => MeteredCostComponent {
            const_term: 376877,
            lin_term: ScaledU64(2747),
        },
        ContractCostType::VmMemRead => MeteredCostComponent {
            const_term: 182,
            lin_term: ScaledU64(24),
        },
        ContractCostType::VmMemWrite => MeteredCostComponent {
            const_term: 182,
            lin_term: ScaledU64(24),
        },
        ContractCostType::VmInstantiation => MeteredCostComponent {
            const_term: 967154,
            lin_term: ScaledU64(69991),
        },
        ContractCostType::VmCachedInstantiation => MeteredCostComponent {
            const_term: 967154,
            lin_term: ScaledU64(69991),
        },
        ContractCostType::InvokeVmFunction => MeteredCostComponent {
            const_term: 1125,
            lin_term: ScaledU64(0),
        },
        ContractCostType::ComputeKeccak256Hash => MeteredCostComponent {
            const_term: 2890,
            lin_term: ScaledU64(3561),
        },
        ContractCostType::ComputeEcdsaSecp256k1Key => MeteredCostComponent {
            const_term: 38363,
            lin_term: ScaledU64(0),
        },
        ContractCostType::ComputeEcdsaSecp256k1Sig => MeteredCostComponent {
            const_term: 224,
            lin_term: ScaledU64(0),
        },
        ContractCostType::RecoverEcdsaSecp256k1Key => MeteredCostComponent {
            const_term: 1666155,
            lin_term: ScaledU64(0),
        },
        ContractCostType::Int256AddSub => MeteredCostComponent {
            const_term: 1716,
            lin_term: ScaledU64(0),
        },
        ContractCostType::Int256Mul => MeteredCostComponent {
            const_term: 2226,
            lin_term: ScaledU64(0),
        },
        ContractCostType::Int256Div => MeteredCostComponent {
            const_term: 2333,
            lin_term: ScaledU64(0),
        },
        ContractCostType::Int256Pow => MeteredCostComponent {
            const_term: 5212,
            lin_term: ScaledU64(0),
        },
        ContractCostType::Int256Shift => MeteredCostComponent {
            const_term: 412,
            lin_term: ScaledU64(0),
        },
    }
}

/// Executable lookup of the default memory model table.
pub fn default_mem_model_exec(ct: ContractCostType) -> (r: MeteredCostComponent)
    ensures
        r == default_mem_model(ct),
{
    match ct {
        ContractCostType::WasmInsnExec => MeteredCostComponent {
            const_term: 0,
            lin_term: ScaledU64(0),
        },
        ContractCostType::WasmMemAlloc => MeteredCostComponent {
            const_term: 1,
            lin_term: ScaledU64(0),
        },
        ContractCostType::HostMemAlloc => MeteredCostComponent {
            const_term: 16,
            lin_term: ScaledU64(128),
        },
        ContractCostType::HostMemCpy => MeteredCostComponent {
            const_term: 0,
            lin_term: ScaledU64(0),
        },
        ContractCostType::HostMemCmp => MeteredCostComponent {
            const_term: 0,
            lin_term: ScaledU64(0),
        },
        ContractCostType::DispatchHostFunction => MeteredCostComponent {
            const_term: 0,
            lin_term: ScaledU64(0),
        },
        ContractCostType::VisitObject => MeteredCostComponent {
            const_term: 0,
            lin_term: ScaledU64(0),
        },
        ContractCostType::ValSer => MeteredCostComponent {
            const_term: 18,
            lin_term: ScaledU64(384),
        },
        ContractCostType::ValDeser => MeteredCostComponent {
            const_term: 16,
            lin_term: ScaledU64(128),
        },
        ContractCostType::ComputeSha256Hash => MeteredCostComponent {
            const_term: 40,
            lin_term: ScaledU64(0),
        },
        ContractCostType::ComputeEd25519PubKey => MeteredCostComponent {
            const_term: 0,
            lin_term: ScaledU64(0),
        },
        ContractCostType::MapEntry => MeteredCostComponent {
            const_term: 0,
            lin_term: ScaledU64(0),
        },
        ContractCostType::VecEntry => MeteredCostComponent {
            const_term: 0,
            lin_term: ScaledU64(0),
        },
        ContractCostType::VerifyEd25519Sig => MeteredCostComponent {
            const_term: 0,
            lin_term: ScaledU64(0),
        },
        ContractCostType::VmMemRead => MeteredCostComponent {
            const_term: 0,
            lin_term: ScaledU64(0),
        },
        ContractCostType::VmMemWrite => MeteredCostComponent {
            const_term: 0,
            lin_term: ScaledU64(0),
        },
        ContractCostType::VmInstantiation => MeteredCostComponent {
            const_term: 131103,
            lin_term: ScaledU64(5080),
        },
        ContractCostType::VmCachedInstantiation => MeteredCostComponent {
            const_term: 131103,
            lin_term: ScaledU64(5080),
        },
        ContractCostType::InvokeVmFunction => MeteredCostComponent {
            const_term: 14,
            lin_term: ScaledU64(0),
        },
        ContractCostType::ComputeKeccak256Hash => MeteredCostComponent {
            const_term: 40,
            lin_term: ScaledU64(0),
        },
        ContractCostType::ComputeEcdsaSecp256k1Key => MeteredCostComponent {
            const_term: 0,
            lin_term: ScaledU64(0),
        },
        ContractCostType::ComputeEcdsaSecp256k1Sig => MeteredCostComponent {
            const_term: 0,
            lin_term: ScaledU64(0),
        },
        ContractCostType::RecoverEcdsaSecp256k1Key => MeteredCostComponent {
            const_term: 201,
            lin_term: ScaledU64(0),
        },
        ContractCostType::Int256AddSub => MeteredCostComponent {
            const_term: 119,
            lin_term: ScaledU64(0),
        },
        ContractCostType::Int256Mul => MeteredCostComponent {
            const_term: 119,
            lin_term: ScaledU64(0),
        },
        ContractCostType::Int256Div => MeteredCostComponent {
            const_term: 119,
            lin_term: ScaledU64(0),
        },
        ContractCostType::Int256Pow => MeteredCostComponent {
            const_term: 119,
            lin_term: ScaledU64(0),
        },
        ContractCostType::Int256Shift => MeteredCostComponent {
            const_term: 119,
            lin_term: ScaledU64(0),
        },
    }
}

} // verus!

verus! {

/// The budget of one contract invocation. The execution model is
/// single-threaded and cooperative: one logical budget is shared by the
/// engine, the host built-ins and the storage facade, and every mutation
/// takes an exclusive borrow for the duration of a single operation.
#[derive(Clone, Debug)]
pub struct Budget(pub BudgetImpl);

impl Default for Budget {
    fn default() -> (r: Budget)
        ensures
            is_default_budget(r.0),
    {
        Budget(BudgetImpl::default())
    }
}

/// Anything that can hand out the budget it shares.
pub trait AsBudget: Clone {
    fn as_budget(&self) -> &Budget;
}

impl AsBudget for Budget {
    fn as_budget(&self) -> &Budget {
        self
    }
}

impl Budget {
    /// Initializes the budget from network configuration settings.
    pub fn try_from_configs(
        cpu_limit: u64,
        mem_limit: u64,
        cpu_cost_params: &Vec<ContractCostParamEntry>,
        mem_cost_params: &Vec<ContractCostParamEntry>,
    ) -> (r: Result<Budget, HostError>)
        ensures
            r is Ok <==> (forall|i: int|
                0 <= i < cpu_cost_params@.len() ==> #[trigger] cpu_cost_params@[i].const_term >= 0
                    && cpu_cost_params@[i].linear_term >= 0) && (forall|i: int|
                0 <= i < mem_cost_params@.len() ==> #[trigger] mem_cost_params@[i].const_term >= 0
                    && mem_cost_params@[i].linear_term >= 0),
            r matches Err(e) ==> e == (Error {
                error_type: ScErrorType::Context,
                code: ScErrorCode::InvalidInput,
            }),
            r matches Ok(b) ==> {
                &&& b.0.wf()
                &&& b.0.cpu_insns.cost_models@.len() == cpu_cost_params@.len()
                &&& forall|i: int|
                    0 <= i < cpu_cost_params@.len() ==> #[trigger] b.0.cpu_insns.cost_models@[i]
                        == (MeteredCostComponent {
                        const_term: cpu_cost_params@[i].const_term as u64,
                        lin_term: ScaledU64(cpu_cost_params@[i].linear_term as u64),
                    })
                &&& b.0.mem_bytes.cost_models@.len() == mem_cost_params@.len()
                &&& forall|i: int|
                    0 <= i < mem_cost_params@.len() ==> #[trigger] b.0.mem_bytes.cost_models@[i]
                        == (MeteredCostComponent {
                        const_term: mem_cost_params@[i].const_term as u64,
                        lin_term: ScaledU64(mem_cost_params@[i].linear_term as u64),
                    })
                &&& b.0.cpu_insns.limit == cpu_limit
                &&& b.0.mem_bytes.limit == mem_limit
                &&& b.0.cpu_insns.total_count == 0
                &&& b.0.mem_bytes.total_count == 0
                &&& b.0.enabled == true
                &&& b.0.depth_limit == DEFAULT_HOST_DEPTH_LIMIT
            },
    {
        match BudgetImpl::try_from_configs(cpu_limit, mem_limit, cpu_cost_params, mem_cost_params) {
            Ok(b) => Ok(Budget(b)),
            Err(e) => Err(e),
        }
    }

    /// Performs a bulk charge under the given cost type: `iterations` is the
    /// batch size, and all batched units must share the same cost type and
    /// input.
    pub fn bulk_charge(
        &mut self,
        ty: ContractCostType,
        iterations: u64,
        input: Option<u64>,
    ) -> (r: Result<(), HostError>)
        requires
            old(self).0.wf(),
            old(self).0.covers(ty),
        ensures
            final(self).0.wf(),
            final(self).0.covers(ty),
            final(self).0.enabled == old(self).0.enabled,
            final(self).0.fuel_config == old(self).0.fuel_config,
            final(self).0.depth_limit == old(self).0.depth_limit,
            !old(self).0.enabled ==> *final(self) == *old(self) && r == Ok::<(), HostError>(()),
            old(self).0.enabled ==> budget_charged(old(self).0, final(self).0, ty, iterations, input, r),
    {
        self.0.charge(ty, iterations, input)
    }

    /// Charges the budget once under the given cost type. A `None` input
    /// means the model is constant; a `Some` input feeds the linear model.
    pub fn charge(&mut self, ty: ContractCostType, input: Option<u64>) -> (r: Result<
        (),
        HostError,
    >)
        requires
            old(self).0.wf(),
            old(self).0.covers(ty),
        ensures
            final(self).0.wf(),
            final(self).0.covers(ty),
            final(self).0.enabled == old(self).0.enabled,
            final(self).0.fuel_config == old(self).0.fuel_config,
            final(self).0.depth_limit == old(self).0.depth_limit,
            !old(self).0.enabled ==> *final(self) == *old(self) && r == Ok::<(), HostError>(()),
            old(self).0.enabled ==> budget_charged(old(self).0, final(self).0, ty, 1u64, input, r),
    {
        self.0.charge(ty, 1, input)
    }

    /// One step deeper into a host call.
    pub fn enter(&mut self) -> (r: Result<(), HostError>)
        ensures
            final(self).0.cpu_insns == old(self).0.cpu_insns,
            final(self).0.mem_bytes == old(self).0.mem_bytes,
            final(self).0.tracker == old(self).0.tracker,
            final(self).0.enabled == old(self).0.enabled,
            final(self).0.fuel_config == old(self).0.fuel_config,
            old(self).0.depth_limit > 0 ==> final(self).0.depth_limit == old(self).0.depth_limit
                - 1 && r == Ok::<(), HostError>(()),
            old(self).0.depth_limit == 0 ==> final(self).0.depth_limit == 0 && r == Err::<
                (),
                HostError,
            >(Error { error_type: ScErrorType::Context, code: ScErrorCode::ExceededLimit }),
    {
        self.0.enter()
    }

    /// One step back out of a host call.
    pub fn leave(&mut self) -> (r: Result<(), HostError>)
        ensures
            final(self).0.cpu_insns == old(self).0.cpu_insns,
            final(self).0.mem_bytes == old(self).0.mem_bytes,
            final(self).0.tracker == old(self).0.tracker,
            final(self).0.enabled == old(self).0.enabled,
            final(self).0.fuel_config == old(self).0.fuel_config,
            final(self).0.depth_limit == if old(self).0.depth_limit + 1 > u32::MAX {
                u32::MAX
            } else {
                (old(self).0.depth_limit + 1) as u32
            },
            r == Ok::<(), HostError>(()),
    {
        self.0.leave()
    }

    /// Runs `f` on this budget with metering disabled, then restores the
    /// previous enable flag whatever `f` returned. While disabled, no charge
    /// moves any counter.
    pub fn with_free_budget<T, F: FnOnce(Budget) -> (Budget, Result<T, HostError>)>(
        &mut self,
        f: F,
    ) -> (r: Result<T, HostError>)
        requires
            call_requires(f, (Budget(BudgetImpl { enabled: false, ..old(self).0 }),)),
        ensures
            ({
                let mid = Budget(BudgetImpl { enabled: false, ..old(self).0 });
                exists|out: (Budget, Result<T, HostError>)|
                    {
                        &&& #[trigger] call_ensures(f, (mid,), out)
                        &&& r == out.1
                        &&& final(self).0 == (BudgetImpl { enabled: old(self).0.enabled, ..out.0.0 })
                    }
            }),
    {
        let prev = self.0.enabled;
        self.0.enabled = false;
        let mut tmp = Budget(BudgetImpl {
            cpu_insns: BudgetDimension {
                cost_models: Vec::new(),
                limit: 0,
                counts: Vec::new(),
                total_count: 0,
            },
            mem_bytes: BudgetDimension {
                cost_models: Vec::new(),
                limit: 0,
                counts: Vec::new(),
                total_count: 0,
            },
            tracker: MeterTracker { cost_tracker: Vec::new(), count: 0 },
            enabled: false,
            fuel_config: FuelConfig::default(),
            depth_limit: 0,
        });
        core::mem::swap(self, &mut tmp);
        let (mut b, res) = f(tmp);
        b.0.enabled = prev;
        core::mem::swap(self, &mut b);
        res
    }

    /// The tracker slot of the given cost type: its saturating iteration sum
    /// and, for linear types, its saturating input sum.
    pub fn get_tracker(&self, ty: ContractCostType) -> (r: Result<(u64, Option<u64>), HostError>)
        requires
            self.0.tracker.cost_tracker@.len() == COST_TYPES_COUNT,
        ensures
            r == Ok::<(u64, Option<u64>), HostError>(
                self.0.tracker.cost_tracker@[ty.index_spec() as int],
            ),
    {
        proof {
            lemma_cost_type_index_lt(ty);
        }
        Ok(self.0.tracker.cost_tracker[ty.index()])
    }

    pub fn get_cpu_insns_consumed(&self) -> (r: Result<u64, HostError>)
        ensures
            r == Ok::<u64, HostError>(self.0.cpu_insns.total_count),
    {
        Ok(self.0.cpu_insns.get_total_count())
    }

    pub fn get_mem_bytes_consumed(&self) -> (r: Result<u64, HostError>)
        ensures
            r == Ok::<u64, HostError>(self.0.mem_bytes.total_count),
    {
        Ok(self.0.mem_bytes.get_total_count())
    }

    pub fn get_cpu_insns_remaining(&self) -> (r: Result<u64, HostError>)
        ensures
            r == Ok::<u64, HostError>(sat_sub(self.0.cpu_insns.limit, self.0.cpu_insns.total_count)),
    {
        Ok(self.0.cpu_insns.get_remaining())
    }

    pub fn get_mem_bytes_remaining(&self) -> (r: Result<u64, HostError>)
        ensures
            r == Ok::<u64, HostError>(sat_sub(self.0.mem_bytes.limit, self.0.mem_bytes.total_count)),
    {
        Ok(self.0.mem_bytes.get_remaining())
    }

    /// Replaces the whole budget state with the sandbox default.
    pub fn reset_default(&mut self) -> (r: Result<(), HostError>)
        ensures
            is_default_budget(final(self).0),
            r == Ok::<(), HostError>(()),
    {
        self.0 = BudgetImpl::default();
        Ok(())
    }

    /// Lifts both limits to `u64::MAX` and resets the tracker.
    pub fn reset_unlimited(&mut self) -> (r: Result<(), HostError>)
        ensures
            final(self).0.cpu_insns.limit == u64::MAX,
            final(self).0.mem_bytes.limit == u64::MAX,
            final(self).0.cpu_insns.total_count == 0,
            final(self).0.mem_bytes.total_count == 0,
            final(self).0.cpu_insns.cost_models == old(self).0.cpu_insns.cost_models,
            final(self).0.mem_bytes.cost_models == old(self).0.mem_bytes.cost_models,
            final(self).0.tracker.count == 0,
            final(self).0.enabled == old(self).0.enabled,
            final(self).0.fuel_config == old(self).0.fuel_config,
            final(self).0.depth_limit == old(self).0.depth_limit,
            r == Ok::<(), HostError>(()),
    {
        match self.reset_unlimited_cpu() {
            Ok(u) => u,
            Err(e) => {
                return Err(e);
            },
        };
        self.reset_unlimited_mem()
    }

    /// Lifts the CPU limit to `u64::MAX` and resets the tracker.
    pub fn reset_unlimited_cpu(&mut self) -> (r: Result<(), HostError>)
        ensures
            final(self).0.cpu_insns.limit == u64::MAX,
            final(self).0.cpu_insns.total_count == 0,
            final(self).0.cpu_insns.cost_models == old(self).0.cpu_insns.cost_models,
            final(self).0.mem_bytes == old(self).0.mem_bytes,
            final(self).0.tracker.count == 0,
            final(self).0.tracker.cost_tracker@.len() == old(self).0.tracker.cost_tracker@.len(),
            final(self).0.enabled == old(self).0.enabled,
            final(self).0.fuel_config == old(self).0.fuel_config,
            final(self).0.depth_limit == old(self).0.depth_limit,
            r == Ok::<(), HostError>(()),
    {
        self.0.cpu_insns.reset(u64::MAX);
        self.reset_tracker()
    }

    /// Lifts the memory limit to `u64::MAX` and resets the tracker.
    pub fn reset_unlimited_mem(&mut self) -> (r: Result<(), HostError>)
        ensures
            final(self).0.mem_bytes.limit == u64::MAX,
            final(self).0.mem_bytes.total_count == 0,
            final(self).0.mem_bytes.cost_models == old(self).0.mem_bytes.cost_models,
            final(self).0.cpu_insns == old(self).0.cpu_insns,
            final(self).0.tracker.count == 0,
            final(self).0.tracker.cost_tracker@.len() == old(self).0.tracker.cost_tracker@.len(),
            final(self).0.enabled == old(self).0.enabled,
            final(self).0.fuel_config == old(self).0.fuel_config,
            final(self).0.depth_limit == old(self).0.depth_limit,
            r == Ok::<(), HostError>(()),
    {
        self.0.mem_bytes.reset(u64::MAX);
        self.reset_tracker()
    }

    /// Zeroes the tracker, preserving which slots carry an input sum.
    pub fn reset_tracker(&mut self) -> (r: Result<(), HostError>)
        ensures
            final(self).0.cpu_insns == old(self).0.cpu_insns,
            final(self).0.mem_bytes == old(self).0.mem_bytes,
            final(self).0.enabled == old(self).0.enabled,
            final(self).0.fuel_config == old(self).0.fuel_config,
            final(self).0.depth_limit == old(self).0.depth_limit,
            final(self).0.tracker.count == 0,
            final(self).0.tracker.cost_tracker@.len() == old(self).0.tracker.cost_tracker@.len(),
            forall|i: int|
                0 <= i < old(self).0.tracker.cost_tracker@.len()
                    ==> #[trigger] final(self).0.tracker.cost_tracker@[i] == (
                0u64,
                if old(self).0.tracker.cost_tracker@[i].1 is Some {
                    Some(0u64)
                } else {
                    Option::<u64>::None
                },
                ),
            r == Ok::<(), HostError>(()),
    {
        self.0.tracker.reset();
        Ok(())
    }

    /// Sets both limits and zeroes all counters and the tracker.
    pub fn reset_limits(&mut self, cpu: u64, mem: u64) -> (r: Result<(), HostError>)
        ensures
            final(self).0.cpu_insns.limit == cpu,
            final(self).0.mem_bytes.limit == mem,
            final(self).0.cpu_insns.total_count == 0,
            final(self).0.mem_bytes.total_count == 0,
            final(self).0.cpu_insns.cost_models == old(self).0.cpu_insns.cost_models,
            final(self).0.mem_bytes.cost_models == old(self).0.mem_bytes.cost_models,
            final(self).0.cpu_insns.counts@.len() == old(self).0.cpu_insns.counts@.len(),
            final(self).0.mem_bytes.counts@.len() == old(self).0.mem_bytes.counts@.len(),
            final(self).0.tracker.count == 0,
            final(self).0.tracker.cost_tracker@.len() == old(self).0.tracker.cost_tracker@.len(),
            final(self).0.enabled == old(self).0.enabled,
            final(self).0.fuel_config == old(self).0.fuel_config,
            final(self).0.depth_limit == old(self).0.depth_limit,
            r == Ok::<(), HostError>(()),
    {
        self.0.cpu_insns.reset(cpu);
        self.0.mem_bytes.reset(mem);
        self.reset_tracker()
    }

    /// Zeroes every model of both dimensions, so that individual ones can be
    /// overridden afterwards.
    pub fn reset_models(&mut self) -> (r: Result<(), HostError>)
        ensures
            final(self).0.cpu_insns.cost_models@.len() == old(self).0.cpu_insns.cost_models@.len(),
            final(self).0.mem_bytes.cost_models@.len() == old(self).0.mem_bytes.cost_models@.len(),
            forall|i: int|
                0 <= i < final(self).0.cpu_insns.cost_models@.len()
                    ==> #[trigger] final(self).0.cpu_insns.cost_models@[i]
                    == (MeteredCostComponent { const_term: 0, lin_term: ScaledU64(0) }),
            forall|i: int|
                0 <= i < final(self).0.mem_bytes.cost_models@.len()
                    ==> #[trigger] final(self).0.mem_bytes.cost_models@[i]
                    == (MeteredCostComponent { const_term: 0, lin_term: ScaledU64(0) }),
            final(self).0.cpu_insns.limit == old(self).0.cpu_insns.limit,
            final(self).0.mem_bytes.limit == old(self).0.mem_bytes.limit,
            final(self).0.cpu_insns.counts == old(self).0.cpu_insns.counts,
            final(self).0.mem_bytes.counts == old(self).0.mem_bytes.counts,
            final(self).0.cpu_insns.total_count == old(self).0.cpu_insns.total_count,
            final(self).0.mem_bytes.total_count == old(self).0.mem_bytes.total_count,
            final(self).0.tracker == old(self).0.tracker,
            final(self).0.enabled == old(self).0.enabled,
            final(self).0.fuel_config == old(self).0.fuel_config,
            final(self).0.depth_limit == old(self).0.depth_limit,
            r == Ok::<(), HostError>(()),
    {
        self.0.cpu_insns.reset_models();
        self.0.mem_bytes.reset_models();
        Ok(())
    }

    /// Overrides one cost type's models in both dimensions with already
    /// scaled linear terms.
    pub fn override_model_with_scaled_params(
        &mut self,
        ty: ContractCostType,
        const_cpu: u64,
        lin_cpu: ScaledU64,
        const_mem: u64,
        lin_mem: ScaledU64,
    ) -> (r: Result<(), HostError>)
        requires
            old(self).0.covers(ty),
        ensures
            final(self).0.cpu_insns.cost_models@ == old(self).0.cpu_insns.cost_models@.update(
                ty.index_spec() as int,
                MeteredCostComponent { const_term: const_cpu, lin_term: lin_cpu },
            ),
            final(self).0.mem_bytes.cost_models@ == old(self).0.mem_bytes.cost_models@.update(
                ty.index_spec() as int,
                MeteredCostComponent { const_term: const_mem, lin_term: lin_mem },
            ),
            final(self).0.cpu_insns.limit == old(self).0.cpu_insns.limit,
            final(self).0.mem_bytes.limit == old(self).0.mem_bytes.limit,
            final(self).0.cpu_insns.counts == old(self).0.cpu_insns.counts,
            final(self).0.mem_bytes.counts == old(self).0.mem_bytes.counts,
            final(self).0.cpu_insns.total_count == old(self).0.cpu_insns.total_count,
            final(self).0.mem_bytes.total_count == old(self).0.mem_bytes.total_count,
            final(self).0.tracker == old(self).0.tracker,
            final(self).0.enabled == old(self).0.enabled,
            final(self).0.fuel_config == old(self).0.fuel_config,
            final(self).0.depth_limit == old(self).0.depth_limit,
            r == Ok::<(), HostError>(()),
    {
        self.0.cpu_insns.set_cost_model(
            ty,
            MeteredCostComponent { const_term: const_cpu, lin_term: lin_cpu },
        );
        self.0.mem_bytes.set_cost_model(
            ty,
            MeteredCostComponent { const_term: const_mem, lin_term: lin_mem },
        );
        Ok(())
    }

    /// Overrides one cost type's models, scaling the given raw linear terms.
    pub fn override_model_with_unscaled_params(
        &mut self,
        ty: ContractCostType,
        const_cpu: u64,
        lin_cpu: u64,
        const_mem: u64,
        lin_mem: u64,
    ) -> (r: Result<(), HostError>)
        requires
            old(self).0.covers(ty),
            lin_cpu * COST_MODEL_LIN_TERM_SCALE_FACTOR <= u64::MAX,
            lin_mem * COST_MODEL_LIN_TERM_SCALE_FACTOR <= u64::MAX,
        ensures
            final(self).0.cpu_insns.cost_models@ == old(self).0.cpu_insns.cost_models@.update(
                ty.index_spec() as int,
                MeteredCostComponent {
                    const_term: const_cpu,
                    lin_term: ScaledU64((lin_cpu * COST_MODEL_LIN_TERM_SCALE_FACTOR) as u64),
                },
            ),
            final(self).0.mem_bytes.cost_models@ == old(self).0.mem_bytes.cost_models@.update(
                ty.index_spec() as int,
                MeteredCostComponent {
                    const_term: const_mem,
                    lin_term: ScaledU64((lin_mem * COST_MODEL_LIN_TERM_SCALE_FACTOR) as u64),
                },
            ),
            final(self).0.cpu_insns.limit == old(self).0.cpu_insns.limit,
            final(self).0.mem_bytes.limit == old(self).0.mem_bytes.limit,
            final(self).0.cpu_insns.counts == old(self).0.cpu_insns.counts,
            final(self).0.mem_bytes.counts == old(self).0.mem_bytes.counts,
            final(self).0.cpu_insns.total_count == old(self).0.cpu_insns.total_count,
            final(self).0.mem_bytes.total_count == old(self).0.mem_bytes.total_count,
            final(self).0.tracker == old(self).0.tracker,
            final(self).0.enabled == old(self).0.enabled,
            final(self).0.fuel_config == old(self).0.fuel_config,
            final(self).0.depth_limit == old(self).0.depth_limit,
            r == Ok::<(), HostError>(()),
    {
        self.override_model_with_scaled_params(
            ty,
            const_cpu,
            ScaledU64::from_unscaled_u64(lin_cpu),
            const_mem,
            ScaledU64::from_unscaled_u64(lin_mem),
        )
    }

    /// Restores the factory fuel schedule used for calibration.
    pub fn reset_fuel_config(&mut self) -> (r: Result<(), HostError>)
        ensures
            final(self).0 == (BudgetImpl {
                fuel_config: FuelConfig { base: 1, entity: 1, load: 1, store: 1, call: 1 },
                ..old(self).0
            }),
            r == Ok::<(), HostError>(()),
    {
        self.0.fuel_config.reset();
        Ok(())
    }

    /// Remaining engine fuel derived from the remaining CPU budget.
    pub fn get_wasmi_fuel_remaining(&self) -> (r: Result<u64, HostError>)
        requires
            self.0.cpu_insns.covers(ContractCostType::WasmInsnExec),
        ensures
            r == Ok::<u64, HostError>(
                sat_sub(self.0.cpu_insns.limit, self.0.cpu_insns.total_count) / (if self.0.cpu_insns.model_of(
                    ContractCostType::WasmInsnExec,
                ).const_term < 1 {
                    1u64
                } else {
                    self.0.cpu_insns.model_of(ContractCostType::WasmInsnExec).const_term
                }),
            ),
    {
        self.0.get_wasmi_fuel_remaining()
    }
}

/// Relates an enabled budget before and after one charge of `iterations`
/// units of `ty` with `input`, together with the outcome `r`: the tracker
/// always records the charge; then a presence mismatch between tracker slot
/// and input fails with `(Context, InternalError)` before any dimension
/// moves; otherwise CPU is charged first and memory only if CPU stayed
/// within its limit, and the first overrun yields `(Budget, ExceededLimit)`.
pub open spec fn budget_charged(
    pre: BudgetImpl,
    post: BudgetImpl,
    ty: ContractCostType,
    iterations: u64,
    input: Option<u64>,
    r: Result<(), HostError>,
) -> bool {
    let slot = pre.tracker.cost_tracker@[ty.index_spec() as int];
    &&& tracker_charged(pre.tracker, post.tracker, ty, iterations, input)
    &&& if !tracker_input_ok(slot.1, input) {
        &&& post.cpu_insns == pre.cpu_insns
        &&& post.mem_bytes == pre.mem_bytes
        &&& r == Err::<(), HostError>(
            Error { error_type: ScErrorType::Context, code: ScErrorCode::InternalError },
        )
    } else if dim_over_after(pre.cpu_insns, ty, iterations, input) {
        &&& dim_charged(pre.cpu_insns, post.cpu_insns, ty, iterations, input)
        &&& post.mem_bytes == pre.mem_bytes
        &&& r == Err::<(), HostError>(
            Error { error_type: ScErrorType::Budget, code: ScErrorCode::ExceededLimit },
        )
    } else {
        &&& dim_charged(pre.cpu_insns, post.cpu_insns, ty, iterations, input)
        &&& dim_charged(pre.mem_bytes, post.mem_bytes, ty, iterations, input)
        &&& r == if dim_over_after(pre.mem_bytes, ty, iterations, input) {
            Err::<(), HostError>(
                Error { error_type: ScErrorType::Budget, code: ScErrorCode::ExceededLimit },
            )
        } else {
            Ok::<(), HostError>(())
        }
    }
}

} // verus!


verus! {

/// Whether one charge of `iterations` units of `ty` with `input` goes
/// through on `pre`: disabled budgets always succeed; enabled ones need a
/// matching tracker slot and room in both dimensions.
pub open spec fn charge_succeeds(
    pre: BudgetImpl,
    ty: ContractCostType,
    iterations: u64,
    input: Option<u64>,
) -> bool {
    !pre.enabled || {
        let slot = pre.tracker.cost_tracker@[ty.index_spec() as int];
        &&& tracker_input_ok(slot.1, input)
        &&& !dim_over_after(pre.cpu_insns, ty, iterations, input)
        &&& !dim_over_after(pre.mem_bytes, ty, iterations, input)
    }
}

/// The error a failing charge reports: an input-presence mismatch is an
/// internal error, an overrun of either dimension exceeds the limit.
pub open spec fn charge_error(
    pre: BudgetImpl,
    ty: ContractCostType,
    iterations: u64,
    input: Option<u64>,
) -> Error {
    let slot = pre.tracker.cost_tracker@[ty.index_spec() as int];
    if !tracker_input_ok(slot.1, input) {
        Error { error_type: ScErrorType::Context, code: ScErrorCode::InternalError }
    } else {
        Error { error_type: ScErrorType::Budget, code: ScErrorCode::ExceededLimit }
    }
}

/// The outcome of one charge on `pre`.
pub open spec fn charge_result(
    pre: BudgetImpl,
    ty: ContractCostType,
    iterations: u64,
    input: Option<u64>,
) -> Result<(), HostError> {
    if charge_succeeds(pre, ty, iterations, input) {
        Ok(())
    } else {
        Err(charge_error(pre, ty, iterations, input))
    }
}

/// Relates a budget before and after it metered one charge, whatever the
/// outcome: flags and schedules never move, a disabled budget does not move
/// at all, and an enabled one moves exactly as `budget_charged` says for
/// the charge's outcome.
pub open spec fn budget_metered(
    pre: Budget,
    post: Budget,
    ty: ContractCostType,
    iterations: u64,
    input: Option<u64>,
) -> bool {
    &&& post.0.enabled == pre.0.enabled
    &&& post.0.fuel_config == pre.0.fuel_config
    &&& post.0.depth_limit == pre.0.depth_limit
    &&& post.0.wf() == pre.0.wf()
    &&& (!pre.0.enabled ==> post == pre)
    &&& (pre.0.enabled ==> budget_charged(
        pre.0,
        post.0,
        ty,
        iterations,
        input,
        charge_result(pre.0, ty, iterations, input),
    ))
}

} // verus!

verus! {

/// The tracker slot a cost type charges into.
pub open spec fn slot_of(b: BudgetImpl, ty: ContractCostType) -> (u64, Option<u64>) {
    b.tracker.cost_tracker@[ty.index_spec() as int]
}

/// A tracker as construction seeds it: one slot per cost type, holding an
/// input accumulator exactly for the linear cost types. Charging preserves
/// this shape.
pub open spec fn tracker_seeded(b: BudgetImpl) -> bool {
    &&& b.tracker.cost_tracker@.len() == COST_TYPES_COUNT
    &&& forall|ct: ContractCostType|
        (#[trigger] b.tracker.cost_tracker@[ct.index_spec() as int]).1 is Some
            <==> ct.input_defined_spec()
}

/// Whether two successive charges both fit: each tracker slot matches its
/// input, and both dimensions' totals stay within their limits after both
/// amounts. Saturating addition is monotone, so this bound subsumes the
/// intermediate check after the first charge.
pub open spec fn chain2_ok(
    pre: BudgetImpl,
    c1: (ContractCostType, u64, Option<u64>),
    c2: (ContractCostType, u64, Option<u64>),
) -> bool {
    !pre.enabled || {
        &&& tracker_input_ok(slot_of(pre, c1.0).1, c1.2)
        &&& tracker_input_ok(slot_of(pre, c2.0).1, c2.2)
        &&& sat_add(
            sat_add(pre.cpu_insns.total_count, pre.cpu_insns.charge_amount(c1.0, c1.1, c1.2)),
            pre.cpu_insns.charge_amount(c2.0, c2.1, c2.2),
        ) <= pre.cpu_insns.limit
        &&& sat_add(
            sat_add(pre.mem_bytes.total_count, pre.mem_bytes.charge_amount(c1.0, c1.1, c1.2)),
            pre.mem_bytes.charge_amount(c2.0, c2.1, c2.2),
        ) <= pre.mem_bytes.limit
    }
}

/// Whether three successive charges all fit.
pub open spec fn chain3_ok(
    pre: BudgetImpl,
    c1: (ContractCostType, u64, Option<u64>),
    c2: (ContractCostType, u64, Option<u64>),
    c3: (ContractCostType, u64, Option<u64>),
) -> bool {
    !pre.enabled || {
        &&& tracker_input_ok(slot_of(pre, c1.0).1, c1.2)
        &&& tracker_input_ok(slot_of(pre, c2.0).1, c2.2)
        &&& tracker_input_ok(slot_of(pre, c3.0).1, c3.2)
        &&& sat_add(
            sat_add(
                sat_add(pre.cpu_insns.total_count, pre.cpu_insns.charge_amount(c1.0, c1.1, c1.2)),
                pre.cpu_insns.charge_amount(c2.0, c2.1, c2.2),
            ),
            pre.cpu_insns.charge_amount(c3.0, c3.1, c3.2),
        ) <= pre.cpu_insns.limit
        &&& sat_add(
            sat_add(
                sat_add(pre.mem_bytes.total_count, pre.mem_bytes.charge_amount(c1.0, c1.1, c1.2)),
                pre.mem_bytes.charge_amount(c2.0, c2.1, c2.2),
            ),
            pre.mem_bytes.charge_amount(c3.0, c3.1, c3.2),
        ) <= pre.mem_bytes.limit
    }
}

/// Whether five successive charges all fit.
pub open spec fn chain5_ok(
    pre: BudgetImpl,
    c1: (ContractCostType, u64, Option<u64>),
    c2: (ContractCostType, u64, Option<u64>),
    c3: (ContractCostType, u64, Option<u64>),
    c4: (ContractCostType, u64, Option<u64>),
    c5: (ContractCostType, u64, Option<u64>),
) -> bool {
    !pre.enabled || {
        &&& tracker_input_ok(slot_of(pre, c1.0).1, c1.2)
        &&& tracker_input_ok(slot_of(pre, c2.0).1, c2.2)
        &&& tracker_input_ok(slot_of(pre, c3.0).1, c3.2)
        &&& tracker_input_ok(slot_of(pre, c4.0).1, c4.2)
        &&& tracker_input_ok(slot_of(pre, c5.0).1, c5.2)
        &&& sat_add(
            sat_add(
                sat_add(
                    sat_add(
                        sat_add(
                            pre.cpu_insns.total_count,
                            pre.cpu_insns.charge_amount(c1.0, c1.1, c1.2),
                        ),
                        pre.cpu_insns.charge_amount(c2.0, c2.1, c2.2),
                    ),
                    pre.cpu_insns.charge_amount(c3.0, c3.1, c3.2),
                ),
                pre.cpu_insns.charge_amount(c4.0, c4.1, c4.2),
            ),
            pre.cpu_insns.charge_amount(c5.0, c5.1, c5.2),
        ) <= pre.cpu_insns.limit
        &&& sat_add(
            sat_add(
                sat_add(
                    sat_add(
                        sat_add(
                            pre.mem_bytes.total_count,
                            pre.mem_bytes.charge_amount(c1.0, c1.1, c1.2),
                        ),
                        pre.mem_bytes.charge_amount(c2.0, c2.1, c2.2),
                    ),
                    pre.mem_bytes.charge_amount(c3.0, c3.1, c3.2),
                ),
                pre.mem_bytes.charge_amount(c4.0, c4.1, c4.2),
            ),
            pre.mem_bytes.charge_amount(c5.0, c5.1, c5.2),
        ) <= pre.mem_bytes.limit
    }
}

/// A budget that metered two charges in order.
pub open spec fn budget_metered2(
    pre: Budget,
    post: Budget,
    c1: (ContractCostType, u64, Option<u64>),
    c2: (ContractCostType, u64, Option<u64>),
) -> bool {
    exists|mid: Budget|
        #[trigger] budget_metered(pre, mid, c1.0, c1.1, c1.2) && budget_metered(
            mid,
            post,
            c2.0,
            c2.1,
            c2.2,
        )
}

/// A budget that metered three charges in order.
pub open spec fn budget_metered3(
    pre: Budget,
    post: Budget,
    c1: (ContractCostType, u64, Option<u64>),
    c2: (ContractCostType, u64, Option<u64>),
    c3: (ContractCostType, u64, Option<u64>),
) -> bool {
    exists|mid: Budget|
        #[trigger] budget_metered(pre, mid, c1.0, c1.1, c1.2) && budget_metered2(
            mid,
            post,
            c2,
            c3,
        )
}

/// A budget that metered five charges in order.
pub open spec fn budget_metered5(
    pre: Budget,
    post: Budget,
    c1: (ContractCostType, u64, Option<u64>),
    c2: (ContractCostType, u64, Option<u64>),
    c3: (ContractCostType, u64, Option<u64>),
    c4: (ContractCostType, u64, Option<u64>),
    c5: (ContractCostType, u64, Option<u64>),
) -> bool {
    exists|mid: Budget|
        #[trigger] budget_metered(pre, mid, c1.0, c1.1, c1.2) && exists|mid2: Budget|
            #[trigger] budget_metered(mid, mid2, c2.0, c2.1, c2.2) && budget_metered3(
                mid2,
                post,
                c3,
                c4,
                c5,
            )
}

/// The scalar observables one metered charge leaves behind: schedules,
/// limits, flags and the tracker seeding never move; on an enabled budget a
/// successful charge moves both totals by exactly the charge amounts.
pub proof fn lemma_metered_scalars(
    pre: Budget,
    post: Budget,
    ty: ContractCostType,
    iterations: u64,
    input: Option<u64>,
)
    requires
        budget_metered(pre, post, ty, iterations, input),
        pre.0.wf(),
        pre.0.covers(ty),
        tracker_seeded(pre.0),
    ensures
        post.0.wf(),
        tracker_seeded(post.0),
        post.0.cpu_insns.cost_models == pre.0.cpu_insns.cost_models,
        post.0.mem_bytes.cost_models == pre.0.mem_bytes.cost_models,
        post.0.cpu_insns.limit == pre.0.cpu_insns.limit,
        post.0.mem_bytes.limit == pre.0.mem_bytes.limit,
        post.0.enabled == pre.0.enabled,
        post.0.fuel_config == pre.0.fuel_config,
        post.0.depth_limit == pre.0.depth_limit,
        !pre.0.enabled ==> post == pre,
        pre.0.enabled && charge_succeeds(pre.0, ty, iterations, input) ==> {
            &&& post.0.cpu_insns.total_count == sat_add(
                pre.0.cpu_insns.total_count,
                pre.0.cpu_insns.charge_amount(ty, iterations, input),
            )
            &&& post.0.mem_bytes.total_count == sat_add(
                pre.0.mem_bytes.total_count,
                pre.0.mem_bytes.charge_amount(ty, iterations, input),
            )
        },
{
    lemma_cost_type_index_lt(ty);
    if pre.0.enabled {
        assert forall|ct: ContractCostType|
            (#[trigger] post.0.tracker.cost_tracker@[ct.index_spec() as int]).1 is Some
                <==> ct.input_defined_spec() by {
            lemma_cost_type_index_lt(ct);
        }
    }
}

} // verus!

verus! {

/// A budget that metered four charges in order.
pub open spec fn budget_metered4(
    pre: Budget,
    post: Budget,
    c1: (ContractCostType, u64, Option<u64>),
    c2: (ContractCostType, u64, Option<u64>),
    c3: (ContractCostType, u64, Option<u64>),
    c4: (ContractCostType, u64, Option<u64>),
) -> bool {
    exists|mid: Budget|
        #[trigger] budget_metered(pre, mid, c1.0, c1.1, c1.2) && budget_metered3(
            mid,
            post,
            c2,
            c3,
            c4,
        )
}


} // verus!

verus! {

/// A constant model (zero linear term) evaluates to its constant term
/// whether or not an input is supplied; a linear model evaluates to the
/// constant term plus the unscaled saturating product of its linear term
/// and the input, everything saturating at `u64::MAX`.
pub proof fn lemma_cost_model_linearity(m: MeteredCostComponent, x: u64)
    ensures
        m.lin_term.0 == 0 ==> eval_model(m, Some(x)) == eval_model(m, None) && eval_model(
            m,
            None,
        ) == m.const_term,
        m.lin_term.0 != 0 ==> eval_model(m, Some(x)) == sat_add(
            m.const_term,
            sat_mul(m.lin_term.0, x) / COST_MODEL_LIN_TERM_SCALE_FACTOR,
        ),
{
}

/// A dimension reports an overrun exactly when one charge's saturating
/// amount pushes its total past the limit — no earlier, no later — and the
/// charged counter reflects the full amount even then, because the counter
/// moves before the overrun check.
pub proof fn lemma_charge_overrun_boundary(
    pre: BudgetDimension,
    post: BudgetDimension,
    ty: ContractCostType,
    iterations: u64,
    input: Option<u64>,
)
    requires
        pre.wf(),
        pre.covers(ty),
        dim_charged(pre, post, ty, iterations, input),
    ensures
        dim_over_after(pre, ty, iterations, input) <==> sat_add(
            pre.total_count,
            sat_mul(eval_model(pre.model_of(ty), input), iterations),
        ) > pre.limit,
        post.counts@[ty.index_spec() as int] == sat_add(
            pre.counts@[ty.index_spec() as int],
            sat_mul(eval_model(pre.model_of(ty), input), iterations),
        ),
        post.total_count == sat_add(
            pre.total_count,
            sat_mul(eval_model(pre.model_of(ty), input), iterations),
        ),
{
    lemma_cost_type_index_lt(ty);
}

/// While the budget is disabled, metering a charge moves nothing at all.
pub proof fn lemma_disabled_charge_is_noop(
    pre: Budget,
    post: Budget,
    ty: ContractCostType,
    iterations: u64,
    input: Option<u64>,
)
    requires
        budget_metered(pre, post, ty, iterations, input),
        !pre.0.enabled,
    ensures
        post == pre,
{
}

/// The running enter/leave imbalance of a prefix: enters count one,
/// leaves count minus one.
pub open spec fn depth_net(ops: Seq<bool>) -> int
    decreases ops.len(),
{
    if ops.len() == 0 {
        0
    } else {
        (if ops[0] {
            1int
        } else {
            -1int
        }) + depth_net(ops.drop_first())
    }
}

/// The remaining depth after running a sequence of enters (`true`) and
/// leaves (`false`) against the depth limiter: an enter on an exhausted
/// depth fails, a leave saturates.
pub open spec fn depth_run(ops: Seq<bool>, d: u32) -> Option<u32>
    decreases ops.len(),
{
    if ops.len() == 0 {
        Some(d)
    } else if ops[0] {
        if d == 0 {
            None
        } else {
            depth_run(ops.drop_first(), (d - 1) as u32)
        }
    } else {
        depth_run(ops.drop_first(), if d == u32::MAX {
            u32::MAX
        } else {
            (d + 1) as u32
        })
    }
}

/// A run whose every prefix keeps the depth between zero and `u32::MAX`
/// completes without error, landing exactly `depth_net` below where it
/// started.
pub proof fn lemma_depth_run_in_bounds(ops: Seq<bool>, d: u32)
    requires
        forall|k: int|
            0 <= k <= ops.len() ==> 0 <= d - depth_net(#[trigger] ops.take(k)) <= u32::MAX,
    ensures
        depth_run(ops, d) == Some((d - depth_net(ops)) as u32),
    decreases ops.len(),
{
    assert(ops.take(0) =~= Seq::<bool>::empty());
    if ops.len() > 0 {
        let t = ops.drop_first();
        assert(ops.take(1) =~= seq![ops[0]]);
        assert(ops.take(1).drop_first() =~= Seq::<bool>::empty());
        assert(depth_net(ops.take(1)) == if ops[0] {
            1int
        } else {
            -1int
        });
        let d2: u32 = if ops[0] {
            (d - 1) as u32
        } else {
            (d + 1) as u32
        };
        assert forall|k: int| 0 <= k <= t.len() implies 0 <= d2 - depth_net(#[trigger] t.take(k))
            <= u32::MAX by {
            assert(ops.take(k + 1).drop_first() =~= t.take(k));
            assert(depth_net(ops.take(k + 1)) == (if ops[0] {
                1int
            } else {
                -1int
            }) + depth_net(t.take(k)));
            assert(0 <= d - depth_net(ops.take(k + 1)) <= u32::MAX);
        }
        lemma_depth_run_in_bounds(t, d2);
        assert(ops.take(ops.len() as int) =~= ops);
        assert(t.take(t.len() as int) =~= t);
        assert(depth_net(ops) == (if ops[0] {
            1int
        } else {
            -1int
        }) + depth_net(t));
    }
}

/// Depth balance: any well-nested sequence of enters and leaves — every
/// prefix's imbalance between zero and the default depth limit, and the
/// whole sequence balanced — runs against a fresh default depth limiter
/// without any error and restores the full depth.
pub proof fn lemma_depth_balance(ops: Seq<bool>)
    requires
        forall|k: int|
            0 <= k <= ops.len() ==> 0 <= depth_net(#[trigger] ops.take(k))
                <= DEFAULT_HOST_DEPTH_LIMIT,
        depth_net(ops) == 0,
    ensures
        depth_run(ops, DEFAULT_HOST_DEPTH_LIMIT) == Some(DEFAULT_HOST_DEPTH_LIMIT),
{
    lemma_depth_run_in_bounds(ops, DEFAULT_HOST_DEPTH_LIMIT);
    assert(ops.take(ops.len() as int) =~= ops);
}

/// Exceeding the depth limit once fails: a sequence that stays well-nested
/// up to an enter performed with the depth exhausted raises the error.
pub proof fn lemma_depth_exceed(ops: Seq<bool>, k: int)
    requires
        0 <= k < ops.len(),
        ops[k],
        depth_net(ops.take(k)) == DEFAULT_HOST_DEPTH_LIMIT,
        forall|j: int|
            0 <= j <= k ==> 0 <= depth_net(#[trigger] ops.take(j)) <= DEFAULT_HOST_DEPTH_LIMIT,
    ensures
        depth_run(ops, DEFAULT_HOST_DEPTH_LIMIT) is None,
{
    lemma_depth_run_to_none(ops, DEFAULT_HOST_DEPTH_LIMIT, k);
}

/// A run that reaches an enter with its depth exhausted errors out.
pub proof fn lemma_depth_run_to_none(ops: Seq<bool>, d: u32, k: int)
    requires
        0 <= k < ops.len(),
        ops[k],
        d - depth_net(ops.take(k)) == 0,
        forall|j: int| 0 <= j <= k ==> 0 <= d - depth_net(#[trigger] ops.take(j)) <= u32::MAX,
    ensures
        depth_run(ops, d) is None,
    decreases k,
{
    assert(ops.take(0) =~= Seq::<bool>::empty());
    if k == 0 {
        assert(d == 0);
    } else {
        let t = ops.drop_first();
        assert(ops.take(1) =~= seq![ops[0]]);
        assert(ops.take(1).drop_first() =~= Seq::<bool>::empty());
        assert(depth_net(ops.take(1)) == if ops[0] {
            1int
        } else {
            -1int
        });
        assert(0 <= d - depth_net(ops.take(1)) <= u32::MAX);
        let d2: u32 = if ops[0] {
            (d - 1) as u32
        } else {
            (d + 1) as u32
        };
        assert forall|j: int| 0 <= j <= k - 1 implies 0 <= d2 - depth_net(#[trigger] t.take(j))
            <= u32::MAX by {
            assert(ops.take(j + 1).drop_first() =~= t.take(j));
            assert(depth_net(ops.take(j + 1)) == (if ops[0] {
                1int
            } else {
                -1int
            }) + depth_net(t.take(j)));
            assert(0 <= d - depth_net(ops.take(j + 1)) <= u32::MAX);
        }
        assert(ops.take(k).drop_first() =~= t.take(k - 1));
        assert(depth_net(ops.take(k)) == (if ops[0] {
            1int
        } else {
            -1int
        }) + depth_net(t.take(k - 1)));
        assert(t[k - 1] == ops[k]);
        lemma_depth_run_to_none(t, d2, k - 1);
    }
}

} // verus!

verus! {

/// The dimension total after the first `k` of a sequence of saturating
/// charge amounts.
pub open spec fn running_total(t0: u64, amounts: Seq<u64>, k: int) -> u64
    decreases k,
{
    if k <= 0 {
        t0
    } else {
        sat_add(running_total(t0, amounts, k - 1), amounts[k - 1])
    }
}

/// Budget overrun happens at the first crossing and no earlier and no
/// later: the running total of a charge sequence never decreases, so with
/// each charge failing exactly when the total after it exceeds the limit
/// (the per-charge contract of `BudgetDimension::charge`), the failing
/// charges are precisely those from the first crossing on.
pub proof fn lemma_overrun_first_crossing(t0: u64, amounts: Seq<u64>, limit: u64, j: int, k: int)
    requires
        0 <= j <= k <= amounts.len(),
    ensures
        running_total(t0, amounts, j) <= running_total(t0, amounts, k),
        running_total(t0, amounts, j) > limit ==> running_total(t0, amounts, k) > limit,
    decreases k - j,
{
    if j < k {
        lemma_overrun_first_crossing(t0, amounts, limit, j, k - 1);
    }
}

} // verus!
