use rewards::engine::{
    buy, create_reward_plan, end_reward_plan, reward, Buy, CreateRewardPlan,
    CreateRewardPlanParams, EndRewardPlan, Reward, RewardParams,
};
use rewards::errors::ErrorCodes;
use rewards::identity::{asset_id_for, derive_authority, KeyId};
use rewards::introspection::TransactionContext;
use rewards::ledger::Ledger;
use rewards::registry::PlanRegistry;

fn key(n: u64) -> KeyId {
    KeyId { w0: n, w1: 0, w2: 0, w3: 0 }
}

fn plan_name() -> Vec<u8> {
    b"loyalty".to_vec()
}

fn creation_params(threshold: u64, caller: KeyId) -> CreateRewardPlanParams {
    CreateRewardPlanParams {
        name: plan_name(),
        threshold,
        allowed_program: caller,
        metadata_uri: b"https://example.invalid/meta.json".to_vec(),
        metadata_symbol: b"LOYAL".to_vec(),
    }
}

fn setup(threshold: u64) -> (PlanRegistry, Ledger, KeyId, KeyId, KeyId) {
    let admin = key(1);
    let caller = key(2);
    let user = key(3);
    let mut registry = PlanRegistry::new();
    let mut ledger = Ledger::new();
    let r = create_reward_plan(
        &mut registry,
        &mut ledger,
        &CreateRewardPlan { admin },
        creation_params(threshold, caller),
    );
    assert!(r.is_ok());
    (registry, ledger, admin, caller, user)
}

fn reward_params(amount: u64, admin: KeyId) -> RewardParams {
    RewardParams { name: plan_name(), amount, admin }
}

#[test]
fn scenario_a_threshold_cycle() {
    let (registry, mut ledger, admin, caller, user) = setup(5);
    let ctx = TransactionContext { programs: vec![caller], current_index: 0 };
    let asset = asset_id_for(admin, &plan_name());
    for i in 1..=5u64 {
        let r = reward(&registry, &mut ledger, &ctx, &Reward { user }, &reward_params(1, admin));
        assert_eq!(r, Ok(false));
        assert_eq!(ledger.current_balance(user, &asset), i);
    }
    let r6 = reward(&registry, &mut ledger, &ctx, &Reward { user }, &reward_params(1, admin));
    assert_eq!(r6, Ok(true));
    assert_eq!(ledger.current_balance(user, &asset), 1);
}

#[test]
fn scenario_b_direct_call_rejected() {
    let (registry, mut ledger, admin, _caller, user) = setup(5);
    let asset = asset_id_for(admin, &plan_name());
    // no enclosing instruction at all
    let direct = TransactionContext { programs: vec![], current_index: 0 };
    let r = reward(&registry, &mut ledger, &direct, &Reward { user }, &reward_params(1, admin));
    assert_eq!(r, Err(ErrorCodes::InsufficientPrivileges));
    assert_eq!(ledger.current_balance(user, &asset), 0);
    // an enclosing instruction issued by an unauthorized program
    let foreign = TransactionContext { programs: vec![key(9)], current_index: 0 };
    let r2 = reward(&registry, &mut ledger, &foreign, &Reward { user }, &reward_params(1, admin));
    assert_eq!(r2, Err(ErrorCodes::InsufficientPrivileges));
    assert_eq!(ledger.current_balance(user, &asset), 0);
}

#[test]
fn scenario_c_duplicate_plan() {
    let (mut registry, mut ledger, admin, caller, _user) = setup(5);
    let r = create_reward_plan(
        &mut registry,
        &mut ledger,
        &CreateRewardPlan { admin },
        creation_params(7, caller),
    );
    assert_eq!(r.err(), Some(ErrorCodes::DuplicatePlan));
}

#[test]
fn oversized_name_rejected() {
    let admin = key(1);
    let mut registry = PlanRegistry::new();
    let mut ledger = Ledger::new();
    let mut params = creation_params(5, key(2));
    params.name = vec![b'n'; 51];
    let r = create_reward_plan(&mut registry, &mut ledger, &CreateRewardPlan { admin }, params);
    assert_eq!(r.err(), Some(ErrorCodes::InvalidParams));
    let mut params50 = creation_params(5, key(2));
    params50.name = vec![b'n'; 50];
    let r50 =
        create_reward_plan(&mut registry, &mut ledger, &CreateRewardPlan { admin }, params50);
    assert!(r50.is_ok());
}

#[test]
fn reward_on_missing_plan_is_not_found() {
    let (registry, mut ledger, _admin, caller, user) = setup(5);
    let ctx = TransactionContext { programs: vec![caller], current_index: 0 };
    let other_admin = key(8);
    let r =
        reward(&registry, &mut ledger, &ctx, &Reward { user }, &reward_params(1, other_admin));
    assert_eq!(r, Err(ErrorCodes::NotFound));
}

#[test]
fn reward_on_missing_asset_is_ledger_inconsistency() {
    let (registry, _ledger, admin, caller, user) = setup(5);
    // a ledger the plan's asset was never provisioned on
    let mut bare = Ledger::new();
    let ctx = TransactionContext { programs: vec![caller], current_index: 0 };
    let r = reward(&registry, &mut bare, &ctx, &Reward { user }, &reward_params(1, admin));
    assert_eq!(r, Err(ErrorCodes::LedgerInconsistency));
}

#[test]
fn excess_accrual_carries_forward() {
    let (registry, mut ledger, admin, caller, user) = setup(5);
    let asset = asset_id_for(admin, &plan_name());
    let authority = derive_authority(admin, &plan_name());
    assert_eq!(ledger.mint(&asset, user, 7, &authority), Ok(()));
    let ctx = TransactionContext { programs: vec![caller], current_index: 0 };
    let r = reward(&registry, &mut ledger, &ctx, &Reward { user }, &reward_params(2, admin));
    assert_eq!(r, Ok(true));
    // 7 - 5 (burned threshold) + 2 (minted) = 4: the excess 2 carried forward
    assert_eq!(ledger.current_balance(user, &asset), 4);
}

#[test]
fn reward_overflow_leaves_balance_unchanged() {
    let (registry, mut ledger, admin, caller, user) = setup(0);
    let asset = asset_id_for(admin, &plan_name());
    let authority = derive_authority(admin, &plan_name());
    assert_eq!(ledger.mint(&asset, user, u64::MAX, &authority), Ok(()));
    let ctx = TransactionContext { programs: vec![caller], current_index: 0 };
    let r = reward(&registry, &mut ledger, &ctx, &Reward { user }, &reward_params(1, admin));
    assert_eq!(r, Err(ErrorCodes::LedgerInconsistency));
    assert_eq!(ledger.current_balance(user, &asset), u64::MAX);
}

#[test]
fn nested_call_position_is_respected() {
    let (registry, mut ledger, admin, caller, user) = setup(5);
    // the invoking instruction is the second of the transaction
    let ctx = TransactionContext { programs: vec![key(9), caller], current_index: 1 };
    let r = reward(&registry, &mut ledger, &ctx, &Reward { user }, &reward_params(1, admin));
    assert_eq!(r, Ok(false));
    // pointing at the first instruction instead names the wrong program
    let wrong = TransactionContext { programs: vec![key(9), caller], current_index: 0 };
    let r2 = reward(&registry, &mut ledger, &wrong, &Reward { user }, &reward_params(1, admin));
    assert_eq!(r2, Err(ErrorCodes::InsufficientPrivileges));
}

#[test]
fn metadata_record_is_provisioned_once_with_exact_fields() {
    let admin = key(1);
    let mut registry = PlanRegistry::new();
    let mut ledger = Ledger::new();
    let m = create_reward_plan(
        &mut registry,
        &mut ledger,
        &CreateRewardPlan { admin },
        creation_params(5, key(2)),
    )
    .unwrap();
    assert_eq!(m.asset.admin, admin);
    assert_eq!(m.asset.name, plan_name());
    assert_eq!(m.name, plan_name());
    assert_eq!(m.symbol, b"LOYAL".to_vec());
    assert_eq!(m.uri, b"https://example.invalid/meta.json".to_vec());
    assert_eq!(m.uses_total, 100_000_000);
    assert_eq!(m.uses_remaining, 100_000_000);
    assert_eq!(ledger.decimals_of(&m.asset), Some(6));
}

#[test]
fn lookup_plan_resolves_deterministically() {
    let (registry, _ledger, admin, caller, _user) = setup(5);
    let first = registry.lookup_plan(admin, &plan_name()).unwrap();
    assert_eq!(first.threshold, 5);
    assert_eq!(first.allowed_program, caller);
    assert_eq!(first.name, plan_name());
    let second = registry.lookup_plan(admin, &plan_name()).unwrap();
    assert_eq!(second.threshold, first.threshold);
    assert_eq!(second.allowed_program, first.allowed_program);
    assert!(registry.lookup_plan(key(42), &plan_name()).is_err());
    assert_eq!(
        registry.lookup_plan(key(42), &plan_name()).err(),
        Some(ErrorCodes::NotFound)
    );
}

#[test]
fn end_reward_plan_accepts_a_valid_signer() {
    let user = key(3);
    assert_eq!(end_reward_plan(&EndRewardPlan { user }, plan_name()), Ok(()));
}

#[test]
fn buy_reports_one_unit_of_activity() {
    let (registry, mut ledger, admin, caller, user) = setup(2);
    let asset = asset_id_for(admin, &plan_name());
    let ctx = TransactionContext { programs: vec![caller], current_index: 0 };
    assert_eq!(
        buy(&registry, &mut ledger, &ctx, &Buy { user }, plan_name(), admin),
        Ok(())
    );
    assert_eq!(ledger.current_balance(user, &asset), 1);
    let direct = TransactionContext { programs: vec![], current_index: 0 };
    assert_eq!(
        buy(&registry, &mut ledger, &direct, &Buy { user }, plan_name(), admin),
        Err(ErrorCodes::InsufficientPrivileges)
    );
    assert_eq!(ledger.current_balance(user, &asset), 1);
}
