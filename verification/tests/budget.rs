use soroban_host_core::budget::{
    Budget, ContractCostParamEntry, ContractCostType, MeteredCostComponent, ScaledU64,
    DEFAULT_CPU_INSN_LIMIT, DEFAULT_HOST_DEPTH_LIMIT, DEFAULT_MEM_BYTES_LIMIT,
};
use soroban_host_core::errors::{Error, HostError, ScErrorCode, ScErrorType};

fn budget_error() -> Error {
    Error { error_type: ScErrorType::Budget, code: ScErrorCode::ExceededLimit }
}

#[test]
fn cost_model_constant_and_linear() {
    // A constant model yields its constant term with or without an input.
    let constant = MeteredCostComponent { const_term: 263, lin_term: ScaledU64(0) };
    assert_eq!(constant.evaluate(None), Ok(263));
    assert_eq!(constant.evaluate(Some(0)), Ok(263));
    assert_eq!(constant.evaluate(Some(12345)), Ok(263));
    // A linear model adds the unscaled product.
    let linear = MeteredCostComponent { const_term: 39, lin_term: ScaledU64(24) };
    assert_eq!(linear.evaluate(Some(100)), Ok(39 + (24 * 100) / 128));
    assert_eq!(linear.evaluate(None), Ok(39));
    // Saturation at u64::MAX, never wrapping.
    let sat = MeteredCostComponent { const_term: 7, lin_term: ScaledU64(u64::MAX) };
    assert_eq!(sat.evaluate(Some(u64::MAX)), Ok(7u64.saturating_add(u64::MAX / 128)));
    let sat2 = MeteredCostComponent { const_term: u64::MAX, lin_term: ScaledU64(u64::MAX) };
    assert_eq!(sat2.evaluate(Some(u64::MAX)), Ok(u64::MAX));
}

#[test]
fn default_budget_single_mem_cpy_charge() {
    // Default budget, one HostMemCpy of 100 bytes:
    // CPU = 39 + (24 * 100) / 128 = 57, memory = 0.
    let mut b = Budget::default();
    b.charge(ContractCostType::HostMemCpy, Some(100)).unwrap();
    assert_eq!(b.get_cpu_insns_consumed(), Ok(57));
    assert_eq!(b.get_mem_bytes_consumed(), Ok(0));
    assert_eq!(
        b.get_cpu_insns_remaining(),
        Ok(DEFAULT_CPU_INSN_LIMIT - 57)
    );
}

#[test]
fn default_budget_bulk_alloc_overrun() {
    // Default budget, HostMemAlloc of 1024 bytes in a batch of 200_000:
    // both dimensions blow their limits, and the overrun surfaces as
    // ExceededLimit. The CPU dimension is charged first and keeps the full
    // amount: (1141 + (1 * 1024) / 128) * 200_000 = 229_800_000.
    let mut b = Budget::default();
    let r = b.bulk_charge(ContractCostType::HostMemAlloc, 200_000, Some(1024));
    assert_eq!(r, Err(budget_error()));
    assert_eq!(b.get_cpu_insns_consumed(), Ok(229_800_000));
    // The memory dimension alone would have accumulated
    // (16 + (128 * 1024) / 128) * 200_000 = 208_000_000, which exceeds the
    // default memory limit of 104_857_600; the CPU overrun cuts charging
    // short before the memory dimension moves.
    assert!(208_000_000u64 > DEFAULT_MEM_BYTES_LIMIT);
    assert_eq!(b.get_mem_bytes_consumed(), Ok(0));
}

#[test]
fn overrun_raised_exactly_at_crossing() {
    // With a CPU limit of 100 and the default WasmInsnExec cost of 6, the
    // first sixteen charges (96) succeed and the seventeenth (102) fails;
    // the counter keeps the full overrun contribution.
    let mut b = Budget::default();
    b.reset_limits(100, u64::MAX).unwrap();
    for i in 1..=16u64 {
        assert_eq!(b.charge(ContractCostType::WasmInsnExec, None), Ok(()));
        assert_eq!(b.get_cpu_insns_consumed(), Ok(6 * i));
    }
    assert_eq!(
        b.charge(ContractCostType::WasmInsnExec, None),
        Err(budget_error())
    );
    assert_eq!(b.get_cpu_insns_consumed(), Ok(102));
    // Once raised, later charges keep failing: no rollback, no retry.
    assert_eq!(
        b.charge(ContractCostType::WasmInsnExec, None),
        Err(budget_error())
    );
}

#[test]
fn tracker_input_presence_mismatch() {
    // WasmInsnExec is a constant cost type: passing an input is an
    // internal error from the tracker's presence check.
    let mut b = Budget::default();
    assert_eq!(
        b.charge(ContractCostType::WasmInsnExec, Some(5)),
        Err(Error { error_type: ScErrorType::Context, code: ScErrorCode::InternalError })
    );
    // And HostMemCpy is linear: omitting the input is the same error.
    assert_eq!(
        b.charge(ContractCostType::HostMemCpy, None),
        Err(Error { error_type: ScErrorType::Context, code: ScErrorCode::InternalError })
    );
}

#[test]
fn free_budget_scoping() {
    // Inside with_free_budget, no charge moves the counters; the enabled
    // flag is restored afterwards, even on an error path.
    let mut b = Budget::default();
    let r: Result<(), HostError> = b.with_free_budget(|mut inner: Budget| {
        for _ in 0..10 {
            let c = inner.charge(ContractCostType::ComputeSha256Hash, Some(1_000_000));
            assert_eq!(c, Ok(()));
        }
        (inner, Ok(()))
    });
    assert_eq!(r, Ok(()));
    assert_eq!(b.get_cpu_insns_consumed(), Ok(0));
    assert_eq!(b.get_mem_bytes_consumed(), Ok(0));
    // Immediately after, one unwrapped charge prices the full hash:
    // 2924 + (4149 * 1_000_000) / 128 = 32_416_986.
    let r2 = b.charge(ContractCostType::ComputeSha256Hash, Some(1_000_000));
    assert_eq!(r2, Ok(()));
    assert_eq!(b.get_cpu_insns_consumed(), Ok(2924 + (4149u64 * 1_000_000) / 128));
    assert_eq!(b.get_cpu_insns_consumed(), Ok(32_416_986));
    // The flag is restored even when the callback fails.
    let mut b2 = Budget::default();
    let r3: Result<(), HostError> = b2.with_free_budget(|inner: Budget| {
        (inner, Err(Error { error_type: ScErrorType::Context, code: ScErrorCode::InternalError }))
    });
    assert!(r3.is_err());
    assert_eq!(b2.charge(ContractCostType::WasmInsnExec, None), Ok(()));
    assert_eq!(b2.get_cpu_insns_consumed(), Ok(6));
}

#[test]
fn depth_balance_within_limit() {
    // Balanced enter/leave sequences up to the depth limit never error;
    // one more enter at the bottom does, with (Context, ExceededLimit).
    let mut b = Budget::default();
    for _ in 0..DEFAULT_HOST_DEPTH_LIMIT {
        assert_eq!(b.enter(), Ok(()));
    }
    assert_eq!(
        b.enter(),
        Err(Error { error_type: ScErrorType::Context, code: ScErrorCode::ExceededLimit })
    );
    for _ in 0..DEFAULT_HOST_DEPTH_LIMIT {
        assert_eq!(b.leave(), Ok(()));
    }
    // Nested balanced use keeps working.
    for _ in 0..DEFAULT_HOST_DEPTH_LIMIT {
        assert_eq!(b.enter(), Ok(()));
        assert_eq!(b.leave(), Ok(()));
    }
}

#[test]
fn fuel_conversion_after_reset_limits() {
    // wasmi fuel remaining is the remaining CPU divided by the WasmInsnExec
    // constant term (6 by default), floored at one.
    let mut b = Budget::default();
    assert_eq!(b.get_wasmi_fuel_remaining(), Ok(DEFAULT_CPU_INSN_LIMIT / 6));
    b.reset_limits(1_000_000, 1_000).unwrap();
    assert_eq!(b.get_wasmi_fuel_remaining(), Ok(1_000_000 / 6));
    b.reset_limits(5, u64::MAX).unwrap();
    assert_eq!(b.get_wasmi_fuel_remaining(), Ok(0));
    // A zero cost-per-fuel is floored at one.
    b.reset_models().unwrap();
    b.reset_limits(1_000, 1_000).unwrap();
    assert_eq!(b.get_wasmi_fuel_remaining(), Ok(1_000));
}

#[test]
fn config_rejects_negative_terms() {
    let good = vec![
        ContractCostParamEntry { const_term: 6, linear_term: 0 },
        ContractCostParamEntry { const_term: 0, linear_term: 0 },
    ];
    let bad = vec![
        ContractCostParamEntry { const_term: 6, linear_term: 0 },
        ContractCostParamEntry { const_term: -1, linear_term: 0 },
    ];
    assert!(Budget::try_from_configs(100, 100, &good, &good).is_ok());
    let r = Budget::try_from_configs(100, 100, &good, &bad);
    match r {
        Ok(_) => panic!("a negative term must be rejected"),
        Err(e) => assert_eq!(
            e,
            Error { error_type: ScErrorType::Context, code: ScErrorCode::InvalidInput }
        ),
    }
}

#[test]
fn override_and_reset_models() {
    let mut b = Budget::default();
    b.reset_models().unwrap();
    b.override_model_with_unscaled_params(ContractCostType::VecEntry, 10, 2, 3, 0).unwrap();
    b.reset_limits(1_000, 1_000).unwrap();
    b.charge(ContractCostType::VecEntry, None).unwrap();
    assert_eq!(b.get_cpu_insns_consumed(), Ok(10));
    assert_eq!(b.get_mem_bytes_consumed(), Ok(3));
    // Every other model is zeroed.
    b.charge(ContractCostType::MapEntry, None).unwrap();
    assert_eq!(b.get_cpu_insns_consumed(), Ok(10));
}

#[test]
fn tracker_reporting_and_reset() {
    let mut b = Budget::default();
    b.bulk_charge(ContractCostType::HostMemCpy, 3, Some(10)).unwrap();
    assert_eq!(b.get_tracker(ContractCostType::HostMemCpy), Ok((3, Some(30))));
    assert_eq!(b.get_tracker(ContractCostType::WasmInsnExec), Ok((0, None)));
    b.reset_tracker().unwrap();
    // The reset zeroes the sums but preserves which slots carry inputs.
    assert_eq!(b.get_tracker(ContractCostType::HostMemCpy), Ok((0, Some(0))));
    assert_eq!(b.get_tracker(ContractCostType::WasmInsnExec), Ok((0, None)));
}

#[test]
fn unlimited_resets() {
    let mut b = Budget::default();
    b.charge(ContractCostType::DispatchHostFunction, None).unwrap();
    b.reset_unlimited().unwrap();
    assert_eq!(b.get_cpu_insns_consumed(), Ok(0));
    assert_eq!(b.get_cpu_insns_remaining(), Ok(u64::MAX));
    assert_eq!(b.get_mem_bytes_remaining(), Ok(u64::MAX));
    b.reset_default().unwrap();
    assert_eq!(b.get_cpu_insns_remaining(), Ok(DEFAULT_CPU_INSN_LIMIT));
    assert_eq!(b.get_mem_bytes_remaining(), Ok(DEFAULT_MEM_BYTES_LIMIT));
}

#[test]
fn scaled_values_round_down() {
    let s = ScaledU64(255);
    assert_eq!(s.unscale(), 1);
    assert!(!s.is_zero());
    assert!(ScaledU64(0).is_zero());
    assert_eq!(ScaledU64::from_unscaled_u64(3), ScaledU64(384));
    assert_eq!(ScaledU64(3).saturating_mul(u64::MAX), ScaledU64(u64::MAX));
}

#[test]
fn fuel_config_reset_to_factory() {
    let mut b = Budget::default();
    b.reset_fuel_config().unwrap();
    assert_eq!(b.0.fuel_config.base, 1);
    assert_eq!(b.0.fuel_config.entity, 1);
    assert_eq!(b.0.fuel_config.load, 1);
    assert_eq!(b.0.fuel_config.store, 1);
    assert_eq!(b.0.fuel_config.call, 1);
}
