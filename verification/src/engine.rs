use vstd::prelude::*;

use crate::errors::ErrorCodes;
use crate::identity::{
    asset_id_for, authority_of, clone_bytes, derive_authority, plan_address, AssetId, KeyId,
};
use crate::introspection::{invoker_of, verify_immediate_caller, TransactionContext};
use crate::ledger::{
    asset_authority, asset_decimals, balance_of, balances_preserved_except, has_asset,
    AssetRecord, Ledger,
};
use crate::registry::{
    entry_address, has_plan, lemma_plan_push, plan_allowed_program, plan_threshold, PlanEntry,
    PlanRegistry, RewardPlanManager, MAX_NAME_LEN,
};

verus! {

/// How many uses the plan's display record is provisioned with.
pub const METADATA_USES: u64 = 100_000_000;

/// Decimal precision fixed for every plan's asset at creation.
pub const ASSET_DECIMALS: u8 = 6;

/// Creation input for a reward plan.
pub struct CreateRewardPlanParams {
    /// Plan label; at most [`MAX_NAME_LEN`] bytes.
    pub name: Vec<u8>,
    /// Accrued balance required before a call crosses the threshold.
    pub threshold: u64,
    /// The single program permitted to invoke `reward` on this plan.
    pub allowed_program: KeyId,
    /// Passed through to the metadata provisioner.
    pub metadata_uri: Vec<u8>,
    /// Passed through to the metadata provisioner.
    pub metadata_symbol: Vec<u8>,
}

/// Input of a `reward` call: the plan is addressed by `(admin, name)`, and
/// `amount` reward units are issued to the user on every qualifying call.
pub struct RewardParams {
    pub name: Vec<u8>,
    pub amount: u64,
    pub admin: KeyId,
}

/// The record handed to the external metadata provisioner exactly once per
/// plan, at creation; a provisioner failure aborts the creating transaction.
pub struct TokenMetadata {
    pub asset: AssetId,
    pub name: Vec<u8>,
    pub symbol: Vec<u8>,
    pub uri: Vec<u8>,
    pub uses_total: u64,
    pub uses_remaining: u64,
}

/// Accounts of a creation call: the admin, whose co-signature the
/// environment has already authenticated.
pub struct CreateRewardPlan {
    pub admin: KeyId,
}

/// Accounts of a `reward` call: the user whose accrual is read and updated.
pub struct Reward {
    pub user: KeyId,
}

/// Accounts of an `end_reward_plan` call: the signing user.
pub struct EndRewardPlan {
    pub user: KeyId,
}

/// Accounts of a `buy` call: the purchasing user.
pub struct Buy {
    pub user: KeyId,
}

/// The balance a user holds after a successful `reward` call: when the
/// pre-call balance has reached the threshold, exactly the threshold is
/// burned — any excess carries forward — and the requested amount is minted
/// on every call.
pub open spec fn reward_new_balance(pre_bal: u64, threshold: u64, amount: u64) -> int {
    if pre_bal >= threshold {
        pre_bal - threshold + amount
    } else {
        pre_bal + amount
    }
}

/// The privilege gate of a `reward` call: the instruction that invoked the
/// current frame was issued by the plan's allowed caller.
pub open spec fn reward_privilege_ok(
    plans: Seq<PlanEntry>,
    inv: Option<KeyId>,
    admin: KeyId,
    name: Seq<u8>,
) -> bool {
    inv == Some(plan_allowed_program(plans, admin, name))
}

/// The ledger-side precondition of a `reward` call: the plan's asset exists
/// and is bound to the plan-controlled authority.
pub open spec fn reward_ledger_ok(assets: Seq<AssetRecord>, admin: KeyId, name: Seq<u8>) -> bool {
    asset_authority(assets, plan_address(admin, name)) == Some(authority_of(admin, name))
}

/// Every plan in the registry has its asset's mint/burn authority bound to
/// that plan's derived authority.
pub open spec fn sole_authority(plans: Seq<PlanEntry>, assets: Seq<AssetRecord>) -> bool {
    forall|i: int|
        0 <= i < plans.len() ==> asset_authority(assets, entry_address(#[trigger] plans[i]))
            == Some(authority_of(plans[i].admin, plans[i].manager.name@))
}

/// Creates a reward plan owned by the signing admin: validates the name
/// bound, claims the address derived from `(admin, name)`, provisions the
/// plan's asset with the plan-controlled authority as its sole mint/burn
/// authority, and returns the record for the metadata provisioner.
pub fn create_reward_plan(
    registry: &mut PlanRegistry,
    ledger: &mut Ledger,
    accounts: &CreateRewardPlan,
    params: CreateRewardPlanParams,
) -> (r: Result<TokenMetadata, ErrorCodes>)
    requires
        old(registry).wf(),
        old(ledger).wf(),
    ensures
        final(registry).wf(),
        final(ledger).wf(),
        final(ledger).balances@ == old(ledger).balances@,
        r is Err ==> *final(registry) == *old(registry) && *final(ledger) == *old(ledger),
        params.name@.len() > MAX_NAME_LEN ==> r == Err::<TokenMetadata, ErrorCodes>(
            ErrorCodes::InvalidParams,
        ),
        params.name@.len() <= MAX_NAME_LEN && has_plan(
            old(registry).plans@,
            accounts.admin,
            params.name@,
        ) ==> r == Err::<TokenMetadata, ErrorCodes>(ErrorCodes::DuplicatePlan),
        params.name@.len() <= MAX_NAME_LEN && !has_plan(
            old(registry).plans@,
            accounts.admin,
            params.name@,
        ) && has_asset(old(ledger).assets@, plan_address(accounts.admin, params.name@)) ==> r
            == Err::<TokenMetadata, ErrorCodes>(ErrorCodes::LedgerInconsistency),
        params.name@.len() <= MAX_NAME_LEN && !has_plan(
            old(registry).plans@,
            accounts.admin,
            params.name@,
        ) && !has_asset(old(ledger).assets@, plan_address(accounts.admin, params.name@)) ==> ((
        r matches Ok(m) && m.asset@ == plan_address(accounts.admin, params.name@) && m.name@
            == params.name@ && m.symbol@ == params.metadata_symbol@ && m.uri@
            == params.metadata_uri@ && m.uses_total == METADATA_USES && m.uses_remaining
            == METADATA_USES) && has_plan(final(registry).plans@, accounts.admin, params.name@)
            && plan_threshold(final(registry).plans@, accounts.admin, params.name@)
            == params.threshold && plan_allowed_program(
            final(registry).plans@,
            accounts.admin,
            params.name@,
        ) == params.allowed_program && asset_authority(
            final(ledger).assets@,
            plan_address(accounts.admin, params.name@),
        ) == Some(authority_of(accounts.admin, params.name@)) && asset_decimals(
            final(ledger).assets@,
            plan_address(accounts.admin, params.name@),
        ) == Some(ASSET_DECIMALS)),
        forall|a2: KeyId, n2: Seq<u8>|
            plan_address(a2, n2) != plan_address(accounts.admin, params.name@)
                ==> #[trigger] has_plan(final(registry).plans@, a2, n2) == has_plan(
                old(registry).plans@,
                a2,
                n2,
            ),
        forall|a2: (KeyId, Seq<u8>)|
            a2 != plan_address(accounts.admin, params.name@) ==> #[trigger] asset_authority(
                final(ledger).assets@,
                a2,
            ) == asset_authority(old(ledger).assets@, a2),
        sole_authority(old(registry).plans@, old(ledger).assets@) ==> sole_authority(
            final(registry).plans@,
            final(ledger).assets@,
        ),
{
    if params.name.len() > MAX_NAME_LEN {
        return Err(ErrorCodes::InvalidParams);
    }
    match registry.find_plan(accounts.admin, &params.name) {
        Some(_) => {
            proof {
                assert(has_plan(registry.plans@, accounts.admin, params.name@));
            }
            return Err(ErrorCodes::DuplicatePlan);
        },
        None => {},
    }
    let ghost pre_plans = registry.plans@;
    let ghost pre_assets = ledger.assets@;
    let asset = asset_id_for(accounts.admin, &params.name);
    let authority = derive_authority(accounts.admin, &params.name);
    let asset_for_meta = asset.duplicate();
    match ledger.create_asset(asset, authority, ASSET_DECIMALS) {
        Ok(()) => {},
        Err(_) => {
            return Err(ErrorCodes::LedgerInconsistency);
        },
    }
    let entry = PlanEntry {
        admin: accounts.admin,
        manager: RewardPlanManager {
            name: clone_bytes(&params.name),
            threshold: params.threshold,
            allowed_program: params.allowed_program,
        },
    };
    let ghost gentry = entry;
    registry.plans.push(entry);
    proof {
        lemma_plan_push(pre_plans, gentry);
        assert forall|i: int|
            0 <= i < registry.plans@.len() implies (
        #[trigger] registry.plans@[i]).manager.name@.len() <= MAX_NAME_LEN by {
            if i < pre_plans.len() {
                assert(registry.plans@[i] == pre_plans[i]);
            } else {
                assert(registry.plans@[i] == gentry);
            }
        }
        if sole_authority(pre_plans, pre_assets) {
            assert forall|i: int| 0 <= i < registry.plans@.len() implies asset_authority(
                ledger.assets@,
                entry_address(#[trigger] registry.plans@[i]),
            ) == Some(
                authority_of(registry.plans@[i].admin, registry.plans@[i].manager.name@),
            ) by {
                if i < pre_plans.len() {
                    assert(registry.plans@[i] == pre_plans[i]);
                    if entry_address(pre_plans[i]) == plan_address(accounts.admin, params.name@) {
                        assert(has_plan(pre_plans, accounts.admin, params.name@));
                    }
                    assert(asset_authority(ledger.assets@, entry_address(pre_plans[i]))
                        == asset_authority(pre_assets, entry_address(pre_plans[i])));
                } else {
                    assert(registry.plans@[i] == gentry);
                }
            }
        }
    }
    Ok(
        TokenMetadata {
            asset: asset_for_meta,
            name: params.name,
            symbol: params.metadata_symbol,
            uri: params.metadata_uri,
            uses_total: METADATA_USES,
            uses_remaining: METADATA_USES,
        },
    )
}

/// Accepted for a valid signer and currently performs no state change.
pub fn end_reward_plan(_accounts: &EndRewardPlan, _name: Vec<u8>) -> (r: Result<(), ErrorCodes>)
    ensures
        r == Ok::<(), ErrorCodes>(()),
{
    Ok(())
}

/// The reward state transition. Verifies that the instruction invoking this
/// call was issued by the plan's allowed caller, reads the user's balance
/// fresh, and when the balance has reached the plan's threshold burns
/// exactly the threshold — the excess carries forward — before minting the
/// requested amount unconditionally. Returns whether the threshold was
/// crossed. Every ledger operation is presented with the plan-controlled
/// authority, and a call that fails changes no balance at all: both ledger
/// writes are validated before the first one happens.
pub fn reward(
    registry: &PlanRegistry,
    ledger: &mut Ledger,
    instructions: &TransactionContext,
    accounts: &Reward,
    params: &RewardParams,
) -> (r: Result<bool, ErrorCodes>)
    requires
        registry.wf(),
        old(ledger).wf(),
    ensures
        final(ledger).wf(),
        final(ledger).assets@ == old(ledger).assets@,
        r is Err ==> *final(ledger) == *old(ledger),
        !has_plan(registry.plans@, params.admin, params.name@) ==> r == Err::<bool, ErrorCodes>(
            ErrorCodes::NotFound,
        ),
        has_plan(registry.plans@, params.admin, params.name@) && !reward_privilege_ok(
            registry.plans@,
            invoker_of(*instructions),
            params.admin,
            params.name@,
        ) ==> r == Err::<bool, ErrorCodes>(ErrorCodes::InsufficientPrivileges),
        has_plan(registry.plans@, params.admin, params.name@) && reward_privilege_ok(
            registry.plans@,
            invoker_of(*instructions),
            params.admin,
            params.name@,
        ) && !reward_ledger_ok(old(ledger).assets@, params.admin, params.name@) ==> r == Err::<
            bool,
            ErrorCodes,
        >(ErrorCodes::LedgerInconsistency),
        has_plan(registry.plans@, params.admin, params.name@) && reward_privilege_ok(
            registry.plans@,
            invoker_of(*instructions),
            params.admin,
            params.name@,
        ) && reward_ledger_ok(old(ledger).assets@, params.admin, params.name@)
            && reward_new_balance(
            balance_of(
                old(ledger).balances@,
                accounts.user,
                plan_address(params.admin, params.name@),
            ),
            plan_threshold(registry.plans@, params.admin, params.name@),
            params.amount,
        ) > u64::MAX ==> r == Err::<bool, ErrorCodes>(ErrorCodes::LedgerInconsistency),
        has_plan(registry.plans@, params.admin, params.name@) && reward_privilege_ok(
            registry.plans@,
            invoker_of(*instructions),
            params.admin,
            params.name@,
        ) && reward_ledger_ok(old(ledger).assets@, params.admin, params.name@)
            && reward_new_balance(
            balance_of(
                old(ledger).balances@,
                accounts.user,
                plan_address(params.admin, params.name@),
            ),
            plan_threshold(registry.plans@, params.admin, params.name@),
            params.amount,
        ) <= u64::MAX ==> r == Ok::<bool, ErrorCodes>(
            balance_of(
                old(ledger).balances@,
                accounts.user,
                plan_address(params.admin, params.name@),
            ) >= plan_threshold(registry.plans@, params.admin, params.name@),
        ) && balance_of(
            final(ledger).balances@,
            accounts.user,
            plan_address(params.admin, params.name@),
        ) as int == reward_new_balance(
            balance_of(
                old(ledger).balances@,
                accounts.user,
                plan_address(params.admin, params.name@),
            ),
            plan_threshold(registry.plans@, params.admin, params.name@),
            params.amount,
        ) && balances_preserved_except(
            old(ledger).balances@,
            final(ledger).balances@,
            accounts.user,
            plan_address(params.admin, params.name@),
        ),
{
    let plan = match registry.lookup_plan(params.admin, &params.name) {
        Ok(p) => p,
        Err(e) => {
            return Err(e);
        },
    };
    match verify_immediate_caller(instructions, plan.allowed_program) {
        Ok(()) => {},
        Err(e) => {
            return Err(e);
        },
    }
    let asset = asset_id_for(params.admin, &params.name);
    let authority = derive_authority(params.admin, &params.name);
    if !ledger.authority_is(&asset, &authority) {
        return Err(ErrorCodes::LedgerInconsistency);
    }
    let balance = ledger.current_balance(accounts.user, &asset);
    let is_approved = balance >= plan.threshold;
    let after_reset = if is_approved {
        balance - plan.threshold
    } else {
        balance
    };
    if params.amount > u64::MAX - after_reset {
        return Err(ErrorCodes::LedgerInconsistency);
    }
    if is_approved {
        match ledger.burn(&asset, accounts.user, plan.threshold, &authority) {
            Ok(()) => {},
            Err(_) => {
                return Err(ErrorCodes::LedgerInconsistency);
            },
        }
    }
    match ledger.mint(&asset, accounts.user, params.amount, &authority) {
        Ok(()) => {},
        Err(_) => {
            return Err(ErrorCodes::LedgerInconsistency);
        },
    }
    Ok(is_approved)
}

/// An issuing caller's purchase entry point: reports one unit of qualifying
/// activity for the user against the plan at `(admin, name)` by invoking
/// `reward` with amount 1 as a nested call, and discards the approval flag.
pub fn buy(
    registry: &PlanRegistry,
    ledger: &mut Ledger,
    instructions: &TransactionContext,
    accounts: &Buy,
    name: Vec<u8>,
    admin: KeyId,
) -> (r: Result<(), ErrorCodes>)
    requires
        registry.wf(),
        old(ledger).wf(),
    ensures
        final(ledger).wf(),
        final(ledger).assets@ == old(ledger).assets@,
        r is Err ==> *final(ledger) == *old(ledger),
        !has_plan(registry.plans@, admin, name@) ==> r == Err::<(), ErrorCodes>(
            ErrorCodes::NotFound,
        ),
        has_plan(registry.plans@, admin, name@) && !reward_privilege_ok(
            registry.plans@,
            invoker_of(*instructions),
            admin,
            name@,
        ) ==> r == Err::<(), ErrorCodes>(ErrorCodes::InsufficientPrivileges),
        has_plan(registry.plans@, admin, name@) && reward_privilege_ok(
            registry.plans@,
            invoker_of(*instructions),
            admin,
            name@,
        ) && (!reward_ledger_ok(old(ledger).assets@, admin, name@) || reward_new_balance(
            balance_of(old(ledger).balances@, accounts.user, plan_address(admin, name@)),
            plan_threshold(registry.plans@, admin, name@),
            1u64,
        ) > u64::MAX) ==> r == Err::<(), ErrorCodes>(ErrorCodes::LedgerInconsistency),
        has_plan(registry.plans@, admin, name@) && reward_privilege_ok(
            registry.plans@,
            invoker_of(*instructions),
            admin,
            name@,
        ) && reward_ledger_ok(old(ledger).assets@, admin, name@) && reward_new_balance(
            balance_of(old(ledger).balances@, accounts.user, plan_address(admin, name@)),
            plan_threshold(registry.plans@, admin, name@),
            1u64,
        ) <= u64::MAX ==> r == Ok::<(), ErrorCodes>(()) && balance_of(
            final(ledger).balances@,
            accounts.user,
            plan_address(admin, name@),
        ) as int == reward_new_balance(
            balance_of(old(ledger).balances@, accounts.user, plan_address(admin, name@)),
            plan_threshold(registry.plans@, admin, name@),
            1u64,
        ) && balances_preserved_except(
            old(ledger).balances@,
            final(ledger).balances@,
            accounts.user,
            plan_address(admin, name@),
        ),
{
    let reward_params = RewardParams { name, amount: 1, admin };
    let reward_accounts = Reward { user: accounts.user };
    match reward(registry, ledger, instructions, &reward_accounts, &reward_params) {
        Ok(_rewarded) => Ok(()),
        Err(e) => Err(e),
    }
}

/// Law (single authority): once every plan's asset is bound to that plan's
/// derived authority, any step that leaves asset authorities unchanged — as
/// `reward`, `mint` and `burn` all guarantee — keeps every binding intact.
/// Together with the creation contract, which establishes the binding for
/// the new plan and preserves all others, no sequence of engine operations
/// can bind a plan's asset to any identity other than the plan's derived
/// authority.
pub proof fn lemma_single_authority_preserved(
    plans: Seq<PlanEntry>,
    assets1: Seq<AssetRecord>,
    assets2: Seq<AssetRecord>,
)
    requires
        sole_authority(plans, assets1),
        forall|a: (KeyId, Seq<u8>)| #[trigger]
            asset_authority(assets2, a) == asset_authority(assets1, a),
    ensures
        sole_authority(plans, assets2),
{
    assert forall|i: int| 0 <= i < plans.len() implies asset_authority(
        assets2,
        entry_address(#[trigger] plans[i]),
    ) == Some(authority_of(plans[i].admin, plans[i].manager.name@)) by {
        assert(asset_authority(assets2, entry_address(plans[i])) == asset_authority(
            assets1,
            entry_address(plans[i]),
        ));
    }
}

/// Law (single authority, base case): with no plans registered the binding
/// holds vacuously, so it holds along any run that starts from an empty
/// registry and steps through the engine's operations.
pub proof fn lemma_single_authority_init(assets: Seq<AssetRecord>)
    ensures
        sole_authority(Seq::<PlanEntry>::empty(), assets),
{
}

} // verus!
