use vstd::prelude::*;

verus! {

/// Failures the engine reports to its callers. Every failure aborts the call
/// with no state change.
#[derive(Structural, PartialEq, Eq, Clone, Copy, Debug)]
pub enum ErrorCodes {
    /// Malformed creation input: the plan name exceeds the fixed capacity.
    InvalidParams,
    /// A plan already occupies the address derived from `(admin, name)`.
    DuplicatePlan,
    /// The instruction invoking `reward` was not issued by the plan's
    /// allowed caller, or there is no enclosing instruction at all.
    InsufficientPrivileges,
    /// An asset-ledger call would fail despite the engine's own checks:
    /// the plan's asset is missing, carries a foreign authority, or the
    /// requested issuance would exceed the ledger's capacity.
    LedgerInconsistency,
    /// No plan exists at the address derived from `(admin, name)`.
    NotFound,
}

/// Failures of the asset ledger itself, as its interface reports them.
#[derive(Structural, PartialEq, Eq, Clone, Copy, Debug)]
pub enum LedgerError {
    /// The asset is not registered with the ledger.
    UnknownAsset,
    /// The presented capability is not the asset's registered authority.
    WrongAuthority,
    /// A burn asked for more units than the account holds.
    InsufficientBalance,
    /// A mint would push the account's balance past its capacity.
    SupplyOverflow,
    /// An asset with this identifier is already registered.
    DuplicateAsset,
}

} // verus!
