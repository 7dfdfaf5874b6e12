use rewards::errors::LedgerError;
use rewards::identity::{AssetId, Identity, KeyId};
use rewards::ledger::Ledger;

fn kid(n: u64) -> KeyId {
    KeyId { w0: n, w1: 0, w2: 0, w3: 0 }
}

fn asset() -> AssetId {
    AssetId { admin: kid(1), name: b"points".to_vec() }
}

fn authority() -> Identity {
    Identity::PlanAuthority(kid(1), b"points".to_vec())
}

fn provisioned() -> Ledger {
    let mut ledger = Ledger::new();
    assert_eq!(ledger.create_asset(asset(), authority(), 6), Ok(()));
    ledger
}

#[test]
fn mint_and_burn_roundtrip() {
    let mut ledger = provisioned();
    let user = kid(3);
    assert_eq!(ledger.current_balance(user, &asset()), 0);
    assert_eq!(ledger.mint(&asset(), user, 10, &authority()), Ok(()));
    assert_eq!(ledger.current_balance(user, &asset()), 10);
    assert_eq!(ledger.burn(&asset(), user, 4, &authority()), Ok(()));
    assert_eq!(ledger.current_balance(user, &asset()), 6);
    // another user's balance is untouched
    assert_eq!(ledger.current_balance(kid(4), &asset()), 0);
}

#[test]
fn mint_rejects_a_foreign_authority() {
    let mut ledger = provisioned();
    let user = kid(3);
    let foreign = Identity::Key(kid(9));
    assert_eq!(
        ledger.mint(&asset(), user, 10, &foreign),
        Err(LedgerError::WrongAuthority)
    );
    let other_plan = Identity::PlanAuthority(kid(9), b"points".to_vec());
    assert_eq!(
        ledger.mint(&asset(), user, 10, &other_plan),
        Err(LedgerError::WrongAuthority)
    );
    assert_eq!(ledger.current_balance(user, &asset()), 0);
}

#[test]
fn burn_rejects_a_foreign_authority() {
    let mut ledger = provisioned();
    let user = kid(3);
    assert_eq!(ledger.mint(&asset(), user, 10, &authority()), Ok(()));
    let foreign = Identity::Key(kid(9));
    assert_eq!(
        ledger.burn(&asset(), user, 1, &foreign),
        Err(LedgerError::WrongAuthority)
    );
    assert_eq!(ledger.current_balance(user, &asset()), 10);
}

#[test]
fn mint_on_an_unknown_asset_fails() {
    let mut ledger = Ledger::new();
    assert_eq!(
        ledger.mint(&asset(), kid(3), 10, &authority()),
        Err(LedgerError::UnknownAsset)
    );
}

#[test]
fn burn_more_than_the_balance_fails() {
    let mut ledger = provisioned();
    let user = kid(3);
    assert_eq!(ledger.mint(&asset(), user, 3, &authority()), Ok(()));
    assert_eq!(
        ledger.burn(&asset(), user, 4, &authority()),
        Err(LedgerError::InsufficientBalance)
    );
    assert_eq!(ledger.current_balance(user, &asset()), 3);
}

#[test]
fn mint_past_capacity_fails() {
    let mut ledger = provisioned();
    let user = kid(3);
    assert_eq!(ledger.mint(&asset(), user, u64::MAX, &authority()), Ok(()));
    assert_eq!(
        ledger.mint(&asset(), user, 1, &authority()),
        Err(LedgerError::SupplyOverflow)
    );
    assert_eq!(ledger.current_balance(user, &asset()), u64::MAX);
}

#[test]
fn decimals_are_fixed_at_creation() {
    let mut ledger = provisioned();
    assert_eq!(ledger.decimals_of(&asset()), Some(6));
    assert_eq!(
        ledger.decimals_of(&AssetId { admin: kid(9), name: b"points".to_vec() }),
        None
    );
    // neither a mint nor a failed re-creation changes the precision
    assert_eq!(ledger.mint(&asset(), kid(3), 1, &authority()), Ok(()));
    let _ = ledger.create_asset(asset(), authority(), 9);
    assert_eq!(ledger.decimals_of(&asset()), Some(6));
}

#[test]
fn provisioning_the_same_asset_twice_fails() {
    let mut ledger = provisioned();
    assert_eq!(
        ledger.create_asset(asset(), authority(), 6),
        Err(LedgerError::DuplicateAsset)
    );
}

#[test]
fn asset_authority_is_fixed_at_creation() {
    let mut ledger = provisioned();
    let user = kid(3);
    assert!(ledger.authority_is(&asset(), &authority()));
    assert!(!ledger.authority_is(&asset(), &Identity::Key(kid(1))));
    // no later operation rebinds the authority
    assert_eq!(ledger.mint(&asset(), user, 5, &authority()), Ok(()));
    assert_eq!(ledger.burn(&asset(), user, 2, &authority()), Ok(()));
    let _ = ledger.create_asset(asset(), Identity::Key(kid(9)), 6);
    assert!(ledger.authority_is(&asset(), &authority()));
    assert!(!ledger.authority_is(&asset(), &Identity::Key(kid(9))));
}
