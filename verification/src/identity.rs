use vstd::prelude::*;

verus! {

/// A fixed-width (256-bit) principal identifier: a user key, an admin key,
/// or a program id, held as four 64-bit words.
#[derive(Structural, PartialEq, Eq, Clone, Copy, Debug)]
pub struct KeyId {
    pub w0: u64,
    pub w1: u64,
    pub w2: u64,
    pub w3: u64,
}

/// The deterministic address of a reward plan, recomputable by anyone from
/// the creating admin and the plan's name alone. Two plans with the same
/// `(admin, name)` cannot coexist because they would share this address.
pub open spec fn plan_address(admin: KeyId, name: Seq<u8>) -> (KeyId, Seq<u8>) {
    (admin, name)
}

/// An identity as the asset ledger sees it in an authority position: either
/// an external principal's key, or a plan-controlled identity derived from a
/// plan's address. No secret exists for the derived form; only the engine's
/// own call frame presents it to the ledger.
pub enum Identity {
    Key(KeyId),
    PlanAuthority(KeyId, Vec<u8>),
}

/// The mathematical value of an [`Identity`].
pub enum IdentityValue {
    Key(KeyId),
    PlanAuthority(KeyId, Seq<u8>),
}

impl View for Identity {
    type V = IdentityValue;

    open spec fn view(&self) -> IdentityValue {
        match self {
            Identity::Key(k) => IdentityValue::Key(*k),
            Identity::PlanAuthority(admin, name) => IdentityValue::PlanAuthority(*admin, name@),
        }
    }
}

/// The plan-controlled identity for the plan at `plan_address(admin, name)`:
/// the sole mint and burn authority for that plan's asset.
pub open spec fn authority_of(admin: KeyId, name: Seq<u8>) -> IdentityValue {
    IdentityValue::PlanAuthority(admin, name)
}

/// The identifier of the fungible asset a plan tracks. Each plan provisions
/// exactly one asset, addressed by the plan's own address.
pub struct AssetId {
    pub admin: KeyId,
    pub name: Vec<u8>,
}

impl View for AssetId {
    type V = (KeyId, Seq<u8>);

    open spec fn view(&self) -> (KeyId, Seq<u8>) {
        (self.admin, self.name@)
    }
}

impl AssetId {
    /// A copy of this asset identifier with the same value.
    pub fn duplicate(&self) -> (r: AssetId)
        ensures
            r@ == self@,
    {
        AssetId { admin: self.admin, name: clone_bytes(&self.name) }
    }
}

/// Byte-for-byte copy of a byte string.
pub fn clone_bytes(v: &Vec<u8>) -> (r: Vec<u8>)
    ensures
        r@ == v@,
{
    let mut r: Vec<u8> = Vec::new();
    let mut i: usize = 0;
    while i < v.len()
        invariant
            i <= v@.len(),
            r@ == v@.take(i as int),
        decreases v@.len() - i,
    {
        r.push(v[i]);
        assert(r@ =~= v@.take(i + 1 as int));
        i += 1;
    }
    assert(r@ =~= v@);
    r
}

/// Whether two byte strings hold the same bytes.
pub fn bytes_eq(a: &Vec<u8>, b: &Vec<u8>) -> (r: bool)
    ensures
        r == (a@ == b@),
{
    if a.len() != b.len() {
        assert(a@ != b@) by {
            assert(a@.len() != b@.len());
        }
        return false;
    }
    let mut i: usize = 0;
    while i < a.len()
        invariant
            i <= a@.len(),
            a@.len() == b@.len(),
            forall|j: int| 0 <= j < i ==> a@[j] == b@[j],
        decreases a@.len() - i,
    {
        if a[i] != b[i] {
            assert(a@ != b@) by {
                assert(a@[i as int] != b@[i as int]);
            }
            return false;
        }
        i += 1;
    }
    assert(a@ =~= b@);
    true
}

/// The derived asset identifier for the plan at `plan_address(admin, name)`.
pub fn asset_id_for(admin: KeyId, name: &Vec<u8>) -> (r: AssetId)
    ensures
        r@ == plan_address(admin, name@),
{
    AssetId { admin, name: clone_bytes(name) }
}

/// The plan-controlled authority for the plan at `plan_address(admin, name)`,
/// as a value the ledger can compare against an asset's registered authority.
pub fn derive_authority(admin: KeyId, name: &Vec<u8>) -> (r: Identity)
    ensures
        r@ == authority_of(admin, name@),
{
    Identity::PlanAuthority(admin, clone_bytes(name))
}

/// Whether two identities are the same principal.
pub fn id_eq(a: &Identity, b: &Identity) -> (r: bool)
    ensures
        r == (a@ == b@),
{
    match (a, b) {
        (Identity::Key(x), Identity::Key(y)) => x == y,
        (Identity::PlanAuthority(xa, xn), Identity::PlanAuthority(ya, yn)) => {
            xa == ya && bytes_eq(xn, yn)
        },
        _ => false,
    }
}

/// Whether two asset identifiers name the same asset.
pub fn asset_eq(a: &AssetId, b: &AssetId) -> (r: bool)
    ensures
        r == (a@ == b@),
{
    a.admin == b.admin && bytes_eq(&a.name, &b.name)
}

/// Law (address determinism): the address derived for a plan is a function
/// of `(admin, name)` alone, and distinct pairs derive distinct addresses.
/// Every lookup of the same pair therefore resolves to the same address, and
/// a second creation under an occupied pair collides with the first.
pub proof fn lemma_plan_address_injective(a1: KeyId, n1: Seq<u8>, a2: KeyId, n2: Seq<u8>)
    ensures
        plan_address(a1, n1) == plan_address(a2, n2) <==> (a1 == a2 && n1 == n2),
{
}

/// Law (no forgeable authority): a plan-controlled authority is never equal
/// to an external principal's key, so no external caller's identity can
/// stand where the engine's derived authority is required.
pub proof fn lemma_authority_is_not_a_key(admin: KeyId, name: Seq<u8>, k: KeyId)
    ensures
        authority_of(admin, name) != IdentityValue::Key(k),
{
}

} // verus!
