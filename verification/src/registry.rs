use vstd::prelude::*;

use crate::errors::ErrorCodes;
use crate::identity::{bytes_eq, plan_address, KeyId};

verus! {

/// The fixed capacity reserved for a plan's name; a longer name is rejected
/// at creation.
pub const MAX_NAME_LEN: usize = 50;

/// A reward plan's durable record: created once by its admin, consulted and
/// never mutated by `reward`.
pub struct RewardPlanManager {
    /// Human-readable label; at most [`MAX_NAME_LEN`] bytes. Together with
    /// the creating admin it forms the plan's deterministic address.
    pub name: Vec<u8>,
    /// Accrued balance required for a `reward` call to grant a reward unit.
    pub threshold: u64,
    /// The single program permitted to invoke `reward` on this plan.
    pub allowed_program: KeyId,
}

/// One registry entry: the creating admin together with the plan's record.
pub struct PlanEntry {
    pub admin: KeyId,
    pub manager: RewardPlanManager,
}

/// The deterministic address a registry entry occupies.
pub open spec fn entry_address(e: PlanEntry) -> (KeyId, Seq<u8>) {
    plan_address(e.admin, e.manager.name@)
}

/// Whether a plan exists at the address derived from `(admin, name)`.
pub open spec fn has_plan(s: Seq<PlanEntry>, admin: KeyId, name: Seq<u8>) -> bool {
    exists|i: int| 0 <= i < s.len() && entry_address(#[trigger] s[i]) == plan_address(admin, name)
}

/// The index of the plan at the address derived from `(admin, name)`.
pub open spec fn plan_index(s: Seq<PlanEntry>, admin: KeyId, name: Seq<u8>) -> int {
    choose|i: int|
        0 <= i < s.len() && entry_address(#[trigger] s[i]) == plan_address(admin, name)
}

/// The threshold of the plan at `(admin, name)`.
pub open spec fn plan_threshold(s: Seq<PlanEntry>, admin: KeyId, name: Seq<u8>) -> u64 {
    s[plan_index(s, admin, name)].manager.threshold
}

/// The allowed caller of the plan at `(admin, name)`.
pub open spec fn plan_allowed_program(s: Seq<PlanEntry>, admin: KeyId, name: Seq<u8>) -> KeyId {
    s[plan_index(s, admin, name)].manager.allowed_program
}

/// No two entries occupy the same address.
pub open spec fn plans_unique(s: Seq<PlanEntry>) -> bool {
    forall|i: int, j: int|
        0 <= i < s.len() && 0 <= j < s.len() && i != j ==> entry_address(#[trigger] s[i])
            != entry_address(#[trigger] s[j])
}

/// With unique addresses, an entry at the address of `(admin, name)` is the
/// one every plan lookup resolves to.
proof fn lemma_plan_found(s: Seq<PlanEntry>, admin: KeyId, name: Seq<u8>, i: int)
    requires
        plans_unique(s),
        0 <= i < s.len(),
        entry_address(s[i]) == plan_address(admin, name),
    ensures
        has_plan(s, admin, name),
        plan_index(s, admin, name) == i,
        plan_threshold(s, admin, name) == s[i].manager.threshold,
        plan_allowed_program(s, admin, name) == s[i].manager.allowed_program,
{
    assert(has_plan(s, admin, name));
    let k = plan_index(s, admin, name);
    assert(0 <= k < s.len() && entry_address(s[k]) == plan_address(admin, name));
    if k != i {
        assert(entry_address(s[k]) != entry_address(s[i]));
        assert(false);
    }
}

/// Appending an entry at a fresh address creates that plan and leaves every
/// other plan's record untouched.
pub proof fn lemma_plan_push(s: Seq<PlanEntry>, e: PlanEntry)
    requires
        plans_unique(s),
        !has_plan(s, e.admin, e.manager.name@),
    ensures
        plans_unique(s.push(e)),
        has_plan(s.push(e), e.admin, e.manager.name@),
        plan_threshold(s.push(e), e.admin, e.manager.name@) == e.manager.threshold,
        plan_allowed_program(s.push(e), e.admin, e.manager.name@) == e.manager.allowed_program,
        forall|a2: KeyId, n2: Seq<u8>|
            plan_address(a2, n2) != entry_address(e) ==> #[trigger] has_plan(s.push(e), a2, n2)
                == has_plan(s, a2, n2),
{
    let s2 = s.push(e);
    let n = s.len() as int;
    assert(s2[n] == e);
    assert forall|i2: int, j2: int|
        0 <= i2 < s2.len() && 0 <= j2 < s2.len() && i2 != j2 implies entry_address(s2[i2])
        != entry_address(s2[j2]) by {
        if i2 == n {
            assert(s2[j2] == s[j2]);
            if entry_address(s[j2]) == entry_address(e) {
                assert(has_plan(s, e.admin, e.manager.name@));
            }
        } else if j2 == n {
            assert(s2[i2] == s[i2]);
            if entry_address(s[i2]) == entry_address(e) {
                assert(has_plan(s, e.admin, e.manager.name@));
            }
        } else {
            assert(s2[i2] == s[i2] && s2[j2] == s[j2]);
        }
    }
    lemma_plan_found(s2, e.admin, e.manager.name@, n);
    assert forall|a2: KeyId, n2: Seq<u8>|
        plan_address(a2, n2) != entry_address(e) implies has_plan(s2, a2, n2) == has_plan(
        s,
        a2,
        n2,
    ) by {
        if has_plan(s, a2, n2) {
            let k = plan_index(s, a2, n2);
            assert(0 <= k < s.len() && entry_address(s[k]) == plan_address(a2, n2));
            assert(s2[k] == s[k]);
            assert(has_plan(s2, a2, n2));
        } else {
            if has_plan(s2, a2, n2) {
                let k = plan_index(s2, a2, n2);
                assert(0 <= k < s2.len() && entry_address(s2[k]) == plan_address(a2, n2));
                assert(k != n);
                assert(s2[k] == s[k]);
                assert(has_plan(s, a2, n2));
            }
        }
    }
}

/// The plan registry: the durable store of reward plans, addressed
/// deterministically by `(admin, name)` so any caller can recompute a plan's
/// address without a directory lookup.
pub struct PlanRegistry {
    pub plans: Vec<PlanEntry>,
}

impl PlanRegistry {
    /// Well-formed: addresses are unique — two plans with the same
    /// `(admin, name)` cannot coexist — and every stored name fits the
    /// fixed capacity.
    pub open spec fn wf(self) -> bool {
        plans_unique(self.plans@) && forall|i: int|
            0 <= i < self.plans@.len() ==> (#[trigger] self.plans@[i]).manager.name@.len()
                <= MAX_NAME_LEN
    }

    /// An empty registry.
    pub fn new() -> (r: PlanRegistry)
        ensures
            r.wf(),
            r.plans@ == Seq::<PlanEntry>::empty(),
    {
        PlanRegistry { plans: Vec::new() }
    }

    pub(crate) fn find_plan(&self, admin: KeyId, name: &Vec<u8>) -> (r: Option<usize>)
        ensures
            match r {
                Some(i) => i < self.plans@.len() && entry_address(self.plans@[i as int])
                    == plan_address(admin, name@),
                None => !has_plan(self.plans@, admin, name@),
            },
    {
        let mut i: usize = 0;
        while i < self.plans.len()
            invariant
                i <= self.plans@.len(),
                forall|j: int|
                    0 <= j < i ==> entry_address(#[trigger] self.plans@[j]) != plan_address(
                        admin,
                        name@,
                    ),
            decreases self.plans@.len() - i,
        {
            let e = &self.plans[i];
            if e.admin == admin && bytes_eq(&e.manager.name, name) {
                return Some(i);
            }
            i += 1;
        }
        None
    }

    /// Resolves the plan at the address derived from `(admin, name)`. The
    /// same pair always resolves to the same address, so repeated lookups
    /// agree; a pair nothing was created under reports `NotFound`.
    pub fn lookup_plan(&self, admin: KeyId, name: &Vec<u8>) -> (r: Result<
        &RewardPlanManager,
        ErrorCodes,
    >)
        requires
            self.wf(),
        ensures
            has_plan(self.plans@, admin, name@) ==> (r matches Ok(m) && m.name@ == name@
                && m.threshold == plan_threshold(self.plans@, admin, name@) && m.allowed_program
                == plan_allowed_program(self.plans@, admin, name@)),
            !has_plan(self.plans@, admin, name@) ==> r == Err::<&RewardPlanManager, ErrorCodes>(
                ErrorCodes::NotFound,
            ),
    {
        match self.find_plan(admin, name) {
            Some(i) => {
                proof {
                    lemma_plan_found(self.plans@, admin, name@, i as int);
                }
                Ok(&self.plans[i].manager)
            },
            None => Err(ErrorCodes::NotFound),
        }
    }
}

} // verus!
