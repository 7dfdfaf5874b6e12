use vstd::prelude::*;

use crate::errors::LedgerError;
use crate::identity::{asset_eq, id_eq, AssetId, Identity, IdentityValue, KeyId};

verus! {

/// One asset registered with the ledger: its identifier, the single identity
/// allowed to mint and burn it, and its fixed decimal precision.
pub struct AssetRecord {
    pub asset: AssetId,
    pub authority: Identity,
    pub decimals: u8,
}

/// One `(user, asset)` balance the ledger maintains. A balance record is
/// auto-created the first time an asset is minted to a user.
pub struct BalanceRecord {
    pub user: KeyId,
    pub asset: AssetId,
    pub amount: u64,
}

/// The key a balance record answers to.
pub open spec fn bal_key(r: BalanceRecord) -> (KeyId, (KeyId, Seq<u8>)) {
    (r.user, r.asset@)
}

/// Whether the balance store holds a record for `(u, a)`.
pub open spec fn has_balance(s: Seq<BalanceRecord>, u: KeyId, a: (KeyId, Seq<u8>)) -> bool {
    exists|i: int| 0 <= i < s.len() && bal_key(#[trigger] s[i]) == (u, a)
}

/// The index of the balance record for `(u, a)`.
pub open spec fn bal_index(s: Seq<BalanceRecord>, u: KeyId, a: (KeyId, Seq<u8>)) -> int {
    choose|i: int| 0 <= i < s.len() && bal_key(#[trigger] s[i]) == (u, a)
}

/// The balance the ledger reports for `(u, a)`: the held amount, or zero for
/// an account nothing was ever minted to.
pub open spec fn balance_of(s: Seq<BalanceRecord>, u: KeyId, a: (KeyId, Seq<u8>)) -> u64 {
    if has_balance(s, u, a) {
        s[bal_index(s, u, a)].amount
    } else {
        0u64
    }
}

/// No two balance records answer to the same `(user, asset)` key.
pub open spec fn balances_unique(s: Seq<BalanceRecord>) -> bool {
    forall|i: int, j: int|
        0 <= i < s.len() && 0 <= j < s.len() && i != j ==> bal_key(#[trigger] s[i]) != bal_key(
            #[trigger] s[j],
        )
}

/// Whether the asset store holds a record for asset `a`.
pub open spec fn has_asset(s: Seq<AssetRecord>, a: (KeyId, Seq<u8>)) -> bool {
    exists|i: int| 0 <= i < s.len() && (#[trigger] s[i]).asset@ == a
}

/// The index of the record for asset `a`.
pub open spec fn asset_index(s: Seq<AssetRecord>, a: (KeyId, Seq<u8>)) -> int {
    choose|i: int| 0 <= i < s.len() && (#[trigger] s[i]).asset@ == a
}

/// The registered mint/burn authority of asset `a`, if the asset exists.
pub open spec fn asset_authority(s: Seq<AssetRecord>, a: (KeyId, Seq<u8>)) -> Option<
    IdentityValue,
> {
    if has_asset(s, a) {
        Some(s[asset_index(s, a)].authority@)
    } else {
        None
    }
}

/// The decimal precision asset `a` was created with, if the asset exists.
pub open spec fn asset_decimals(s: Seq<AssetRecord>, a: (KeyId, Seq<u8>)) -> Option<u8> {
    if has_asset(s, a) {
        Some(s[asset_index(s, a)].decimals)
    } else {
        None
    }
}

/// No two asset records share an identifier.
pub open spec fn assets_unique(s: Seq<AssetRecord>) -> bool {
    forall|i: int, j: int|
        0 <= i < s.len() && 0 <= j < s.len() && i != j ==> (#[trigger] s[i]).asset@ != (
        #[trigger] s[j]).asset@
}

/// Balances other than `(u, a)` report the same amount in `s2` as in `s1`.
pub open spec fn balances_preserved_except(
    s1: Seq<BalanceRecord>,
    s2: Seq<BalanceRecord>,
    u: KeyId,
    a: (KeyId, Seq<u8>),
) -> bool {
    forall|u2: KeyId, a2: (KeyId, Seq<u8>)|
        !(u2 == u && a2 == a) ==> #[trigger] balance_of(s2, u2, a2) == balance_of(s1, u2, a2)
}

/// With unique keys, a record that answers to `(u, a)` is the one the
/// reported balance comes from.
proof fn lemma_balance_found(s: Seq<BalanceRecord>, u: KeyId, a: (KeyId, Seq<u8>), i: int)
    requires
        balances_unique(s),
        0 <= i < s.len(),
        bal_key(s[i]) == (u, a),
    ensures
        has_balance(s, u, a),
        bal_index(s, u, a) == i,
        balance_of(s, u, a) == s[i].amount,
{
    assert(has_balance(s, u, a));
    let k = bal_index(s, u, a);
    assert(0 <= k < s.len() && bal_key(s[k]) == (u, a));
    if k != i {
        assert(bal_key(s[k]) != bal_key(s[i]));
        assert(false);
    }
}

/// With unique identifiers, a record for asset `a` is the one the reported
/// authority comes from.
proof fn lemma_asset_found(s: Seq<AssetRecord>, a: (KeyId, Seq<u8>), i: int)
    requires
        assets_unique(s),
        0 <= i < s.len(),
        s[i].asset@ == a,
    ensures
        has_asset(s, a),
        asset_index(s, a) == i,
        asset_authority(s, a) == Some(s[i].authority@),
        asset_decimals(s, a) == Some(s[i].decimals),
{
    assert(has_asset(s, a));
    let k = asset_index(s, a);
    assert(0 <= k < s.len() && s[k].asset@ == a);
    if k != i {
        assert(s[k].asset@ != s[i].asset@);
        assert(false);
    }
}

/// Overwriting the record at `i` with one that answers to the same key
/// changes that key's balance to the new amount and no other balance.
proof fn lemma_balance_update(s: Seq<BalanceRecord>, i: int, r2: BalanceRecord)
    requires
        balances_unique(s),
        0 <= i < s.len(),
        bal_key(r2) == bal_key(s[i]),
    ensures
        balances_unique(s.update(i, r2)),
        balance_of(s.update(i, r2), r2.user, r2.asset@) == r2.amount,
        balances_preserved_except(s, s.update(i, r2), r2.user, r2.asset@),
{
    let s2 = s.update(i, r2);
    assert forall|i2: int, j2: int|
        0 <= i2 < s2.len() && 0 <= j2 < s2.len() && i2 != j2 implies bal_key(s2[i2]) != bal_key(
        s2[j2],
    ) by {
        if i2 == i {
            assert(bal_key(s2[i2]) == bal_key(s[i]));
            assert(s2[j2] == s[j2]);
        } else if j2 == i {
            assert(bal_key(s2[j2]) == bal_key(s[i]));
            assert(s2[i2] == s[i2]);
        } else {
            assert(s2[i2] == s[i2] && s2[j2] == s[j2]);
        }
    }
    assert(bal_key(s2[i]) == (r2.user, r2.asset@));
    lemma_balance_found(s2, r2.user, r2.asset@, i);
    assert forall|u2: KeyId, a2: (KeyId, Seq<u8>)|
        !(u2 == r2.user && a2 == r2.asset@) implies balance_of(s2, u2, a2) == balance_of(
        s,
        u2,
        a2,
    ) by {
        if has_balance(s, u2, a2) {
            let k = bal_index(s, u2, a2);
            assert(0 <= k < s.len() && bal_key(s[k]) == (u2, a2));
            assert(k != i);
            assert(s2[k] == s[k]);
            lemma_balance_found(s, u2, a2, k);
            lemma_balance_found(s2, u2, a2, k);
        } else {
            if has_balance(s2, u2, a2) {
                let k = bal_index(s2, u2, a2);
                assert(0 <= k < s2.len() && bal_key(s2[k]) == (u2, a2));
                assert(k != i);
                assert(s2[k] == s[k]);
                assert(has_balance(s, u2, a2));
            }
            assert(!has_balance(s2, u2, a2));
        }
    }
}

/// Appending a record under a fresh key creates that key's balance and
/// changes no other balance.
proof fn lemma_balance_push(s: Seq<BalanceRecord>, r2: BalanceRecord)
    requires
        balances_unique(s),
        !has_balance(s, r2.user, r2.asset@),
    ensures
        balances_unique(s.push(r2)),
        balance_of(s.push(r2), r2.user, r2.asset@) == r2.amount,
        balances_preserved_except(s, s.push(r2), r2.user, r2.asset@),
{
    let s2 = s.push(r2);
    let n = s.len() as int;
    assert(s2[n] == r2);
    assert forall|i2: int, j2: int|
        0 <= i2 < s2.len() && 0 <= j2 < s2.len() && i2 != j2 implies bal_key(s2[i2]) != bal_key(
        s2[j2],
    ) by {
        if i2 == n {
            assert(s2[j2] == s[j2]);
            if bal_key(s[j2]) == (r2.user, r2.asset@) {
                assert(has_balance(s, r2.user, r2.asset@));
            }
        } else if j2 == n {
            assert(s2[i2] == s[i2]);
            if bal_key(s[i2]) == (r2.user, r2.asset@) {
                assert(has_balance(s, r2.user, r2.asset@));
            }
        } else {
            assert(s2[i2] == s[i2] && s2[j2] == s[j2]);
        }
    }
    assert(bal_key(s2[n]) == (r2.user, r2.asset@));
    lemma_balance_found(s2, r2.user, r2.asset@, n);
    assert forall|u2: KeyId, a2: (KeyId, Seq<u8>)|
        !(u2 == r2.user && a2 == r2.asset@) implies balance_of(s2, u2, a2) == balance_of(
        s,
        u2,
        a2,
    ) by {
        if has_balance(s, u2, a2) {
            let k = bal_index(s, u2, a2);
            assert(0 <= k < s.len() && bal_key(s[k]) == (u2, a2));
            assert(s2[k] == s[k]);
            lemma_balance_found(s, u2, a2, k);
            lemma_balance_found(s2, u2, a2, k);
        } else {
            if has_balance(s2, u2, a2) {
                let k = bal_index(s2, u2, a2);
                assert(0 <= k < s2.len() && bal_key(s2[k]) == (u2, a2));
                assert(k != n);
                assert(s2[k] == s[k]);
                assert(has_balance(s, u2, a2));
            }
            assert(!has_balance(s2, u2, a2));
        }
    }
}

/// Registering a fresh asset gives it the stated authority and leaves every
/// other asset's authority as it was.
proof fn lemma_asset_push(s: Seq<AssetRecord>, r2: AssetRecord)
    requires
        assets_unique(s),
        !has_asset(s, r2.asset@),
    ensures
        assets_unique(s.push(r2)),
        asset_authority(s.push(r2), r2.asset@) == Some(r2.authority@),
        asset_decimals(s.push(r2), r2.asset@) == Some(r2.decimals),
        forall|a2: (KeyId, Seq<u8>)|
            a2 != r2.asset@ ==> #[trigger] asset_authority(s.push(r2), a2) == asset_authority(
                s,
                a2,
            ),
        forall|a2: (KeyId, Seq<u8>)|
            a2 != r2.asset@ ==> #[trigger] asset_decimals(s.push(r2), a2) == asset_decimals(
                s,
                a2,
            ),
{
    let s2 = s.push(r2);
    let n = s.len() as int;
    assert(s2[n] == r2);
    assert forall|i2: int, j2: int|
        0 <= i2 < s2.len() && 0 <= j2 < s2.len() && i2 != j2 implies (s2[i2]).asset@ != (
        s2[j2]).asset@ by {
        if i2 == n {
            assert(s2[j2] == s[j2]);
            if s[j2].asset@ == r2.asset@ {
                assert(has_asset(s, r2.asset@));
            }
        } else if j2 == n {
            assert(s2[i2] == s[i2]);
            if s[i2].asset@ == r2.asset@ {
                assert(has_asset(s, r2.asset@));
            }
        } else {
            assert(s2[i2] == s[i2] && s2[j2] == s[j2]);
        }
    }
    lemma_asset_found(s2, r2.asset@, n);
    assert forall|a2: (KeyId, Seq<u8>)| a2 != r2.asset@ implies asset_authority(s2, a2)
        == asset_authority(s, a2) && asset_decimals(s2, a2) == asset_decimals(s, a2) by {
        if has_asset(s, a2) {
            let k = asset_index(s, a2);
            assert(0 <= k < s.len() && s[k].asset@ == a2);
            assert(s2[k] == s[k]);
            lemma_asset_found(s, a2, k);
            lemma_asset_found(s2, a2, k);
        } else {
            if has_asset(s2, a2) {
                let k = asset_index(s2, a2);
                assert(0 <= k < s2.len() && s2[k].asset@ == a2);
                assert(k != n);
                assert(s2[k] == s[k]);
                assert(has_asset(s, a2));
            }
            assert(!has_asset(s2, a2));
        }
    }
}

/// The asset ledger: the external collaborator that maintains fungible
/// assets and per-user balances, modeled as plain state so that the rules it
/// enforces — the capability check on every mint and burn, non-negative
/// balances, bounded supply per account — are stated and proved.
///
/// The surrounding execution environment persists this state and serializes
/// access to it across transactions; the engine re-reads every balance fresh
/// within each call and never caches it.
pub struct Ledger {
    pub assets: Vec<AssetRecord>,
    pub balances: Vec<BalanceRecord>,
}

impl Ledger {
    /// Well-formed: record keys are unique, so every lookup is unambiguous.
    pub open spec fn wf(self) -> bool {
        assets_unique(self.assets@) && balances_unique(self.balances@)
    }

    /// An empty ledger: no assets and no balances.
    pub fn new() -> (r: Ledger)
        ensures
            r.wf(),
            r.assets@ == Seq::<AssetRecord>::empty(),
            r.balances@ == Seq::<BalanceRecord>::empty(),
    {
        Ledger { assets: Vec::new(), balances: Vec::new() }
    }

    fn find_asset(&self, asset: &AssetId) -> (r: Option<usize>)
        ensures
            match r {
                Some(i) => i < self.assets@.len() && self.assets@[i as int].asset@ == asset@,
                None => !has_asset(self.assets@, asset@),
            },
    {
        let mut i: usize = 0;
        while i < self.assets.len()
            invariant
                i <= self.assets@.len(),
                forall|j: int| 0 <= j < i ==> (#[trigger] self.assets@[j]).asset@ != asset@,
            decreases self.assets@.len() - i,
        {
            if asset_eq(&self.assets[i].asset, asset) {
                return Some(i);
            }
            i += 1;
        }
        None
    }

    fn find_balance(&self, user: KeyId, asset: &AssetId) -> (r: Option<usize>)
        ensures
            match r {
                Some(i) => i < self.balances@.len() && bal_key(self.balances@[i as int]) == (
                user,
                asset@,
                ),
                None => !has_balance(self.balances@, user, asset@),
            },
    {
        let mut i: usize = 0;
        while i < self.balances.len()
            invariant
                i <= self.balances@.len(),
                forall|j: int| 0 <= j < i ==> bal_key(#[trigger] self.balances@[j]) != (
                    user,
                    asset@,
                ),
            decreases self.balances@.len() - i,
        {
            let rec = &self.balances[i];
            if rec.user == user && asset_eq(&rec.asset, asset) {
                return Some(i);
            }
            i += 1;
        }
        None
    }

    /// The balance of `(user, asset)`, read fresh from the store; zero for an
    /// account nothing was ever minted to.
    pub fn current_balance(&self, user: KeyId, asset: &AssetId) -> (r: u64)
        requires
            self.wf(),
        ensures
            r == balance_of(self.balances@, user, asset@),
    {
        match self.find_balance(user, asset) {
            Some(i) => {
                proof {
                    lemma_balance_found(self.balances@, user, asset@, i as int);
                }
                self.balances[i].amount
            },
            None => 0,
        }
    }

    /// Whether `asset` is registered and its mint/burn authority is exactly
    /// `expected`.
    pub fn authority_is(&self, asset: &AssetId, expected: &Identity) -> (r: bool)
        requires
            self.wf(),
        ensures
            r == (asset_authority(self.assets@, asset@) == Some(expected@)),
    {
        match self.find_asset(asset) {
            Some(i) => {
                proof {
                    lemma_asset_found(self.assets@, asset@, i as int);
                }
                id_eq(&self.assets[i].authority, expected)
            },
            None => false,
        }
    }

    /// The decimal precision `asset` was created with, if it is registered.
    pub fn decimals_of(&self, asset: &AssetId) -> (r: Option<u8>)
        requires
            self.wf(),
        ensures
            r == asset_decimals(self.assets@, asset@),
    {
        match self.find_asset(asset) {
            Some(i) => {
                proof {
                    lemma_asset_found(self.assets@, asset@, i as int);
                }
                Some(self.assets[i].decimals)
            },
            None => None,
        }
    }

    /// Registers a fresh asset with `authority` as its sole mint and burn
    /// authority, fixed at creation and never changed by any later call.
    pub fn create_asset(&mut self, asset: AssetId, authority: Identity, decimals: u8) -> (r:
        Result<(), LedgerError>)
        requires
            old(self).wf(),
        ensures
            final(self).wf(),
            final(self).balances@ == old(self).balances@,
            has_asset(old(self).assets@, asset@) ==> r == Err::<(), LedgerError>(
                LedgerError::DuplicateAsset,
            ) && *final(self) == *old(self),
            !has_asset(old(self).assets@, asset@) ==> r == Ok::<(), LedgerError>(())
                && asset_authority(final(self).assets@, asset@) == Some(authority@)
                && asset_decimals(final(self).assets@, asset@) == Some(decimals),
            forall|a2: (KeyId, Seq<u8>)|
                a2 != asset@ ==> #[trigger] asset_authority(final(self).assets@, a2)
                    == asset_authority(old(self).assets@, a2),
            forall|a2: (KeyId, Seq<u8>)|
                a2 != asset@ ==> #[trigger] asset_decimals(final(self).assets@, a2)
                    == asset_decimals(old(self).assets@, a2),
    {
        match self.find_asset(&asset) {
            Some(i) => {
                proof {
                    assert(has_asset(self.assets@, asset@));
                }
                Err(LedgerError::DuplicateAsset)
            },
            None => {
                let ghost pre = self.assets@;
                let rec = AssetRecord { asset, authority, decimals };
                let ghost grec = rec;
                self.assets.push(rec);
                proof {
                    lemma_asset_push(pre, grec);
                }
                Ok(())
            },
        }
    }

    /// Issues `amount` fresh units of `asset` to `to`. Only the asset's
    /// registered authority may mint; a fresh account starts at zero.
    pub fn mint(&mut self, asset: &AssetId, to: KeyId, amount: u64, authority: &Identity) -> (r:
        Result<(), LedgerError>)
        requires
            old(self).wf(),
        ensures
            final(self).wf(),
            final(self).assets@ == old(self).assets@,
            r is Err ==> *final(self) == *old(self),
            !has_asset(old(self).assets@, asset@) ==> r == Err::<(), LedgerError>(
                LedgerError::UnknownAsset,
            ),
            has_asset(old(self).assets@, asset@) && asset_authority(old(self).assets@, asset@)
                != Some(authority@) ==> r == Err::<(), LedgerError>(LedgerError::WrongAuthority),
            has_asset(old(self).assets@, asset@) && asset_authority(old(self).assets@, asset@)
                == Some(authority@) && balance_of(old(self).balances@, to, asset@) + amount
                > u64::MAX ==> r == Err::<(), LedgerError>(LedgerError::SupplyOverflow),
            has_asset(old(self).assets@, asset@) && asset_authority(old(self).assets@, asset@)
                == Some(authority@) && balance_of(old(self).balances@, to, asset@) + amount
                <= u64::MAX ==> r == Ok::<(), LedgerError>(()) && balance_of(
                final(self).balances@,
                to,
                asset@,
            ) as int == balance_of(old(self).balances@, to, asset@) + amount
                && balances_preserved_except(
                old(self).balances@,
                final(self).balances@,
                to,
                asset@,
            ),
    {
        let ai = match self.find_asset(asset) {
            Some(i) => i,
            None => {
                return Err(LedgerError::UnknownAsset);
            },
        };
        proof {
            lemma_asset_found(self.assets@, asset@, ai as int);
        }
        if !id_eq(&self.assets[ai].authority, authority) {
            return Err(LedgerError::WrongAuthority);
        }
        match self.find_balance(to, asset) {
            Some(bi) => {
                proof {
                    lemma_balance_found(self.balances@, to, asset@, bi as int);
                }
                let cur = self.balances[bi].amount;
                if amount > u64::MAX - cur {
                    return Err(LedgerError::SupplyOverflow);
                }
                let ghost pre = self.balances@;
                let rec = &mut self.balances[bi];
                rec.amount = cur + amount;
                proof {
                    assert(bal_key(self.balances@[bi as int]) == bal_key(pre[bi as int]));
                    lemma_balance_update(pre, bi as int, self.balances@[bi as int]);
                }
                Ok(())
            },
            None => {
                let ghost pre = self.balances@;
                let rec = BalanceRecord { user: to, asset: asset.duplicate(), amount };
                let ghost grec = rec;
                self.balances.push(rec);
                proof {
                    lemma_balance_push(pre, grec);
                }
                Ok(())
            },
        }
    }

    /// Removes `amount` units of `asset` from `from`'s balance. Only the
    /// asset's registered authority may burn, and never more than the
    /// account holds.
    pub fn burn(&mut self, asset: &AssetId, from: KeyId, amount: u64, authority: &Identity) -> (r:
        Result<(), LedgerError>)
        requires
            old(self).wf(),
        ensures
            final(self).wf(),
            final(self).assets@ == old(self).assets@,
            r is Err ==> *final(self) == *old(self),
            !has_asset(old(self).assets@, asset@) ==> r == Err::<(), LedgerError>(
                LedgerError::UnknownAsset,
            ),
            has_asset(old(self).assets@, asset@) && asset_authority(old(self).assets@, asset@)
                != Some(authority@) ==> r == Err::<(), LedgerError>(LedgerError::WrongAuthority),
            has_asset(old(self).assets@, asset@) && asset_authority(old(self).assets@, asset@)
                == Some(authority@) && balance_of(old(self).balances@, from, asset@) < amount ==> r
                == Err::<(), LedgerError>(LedgerError::InsufficientBalance),
            has_asset(old(self).assets@, asset@) && asset_authority(old(self).assets@, asset@)
                == Some(authority@) && balance_of(old(self).balances@, from, asset@) >= amount
                ==> r == Ok::<(), LedgerError>(()) && balance_of(
                final(self).balances@,
                from,
                asset@,
            ) as int == balance_of(old(self).balances@, from, asset@) - amount
                && balances_preserved_except(
                old(self).balances@,
                final(self).balances@,
                from,
                asset@,
            ),
    {
        let ai = match self.find_asset(asset) {
            Some(i) => i,
            None => {
                return Err(LedgerError::UnknownAsset);
            },
        };
        proof {
            lemma_asset_found(self.assets@, asset@, ai as int);
        }
        if !id_eq(&self.assets[ai].authority, authority) {
            return Err(LedgerError::WrongAuthority);
        }
        match self.find_balance(from, asset) {
            Some(bi) => {
                proof {
                    lemma_balance_found(self.balances@, from, asset@, bi as int);
                }
                let cur = self.balances[bi].amount;
                if cur < amount {
                    return Err(LedgerError::InsufficientBalance);
                }
                let ghost pre = self.balances@;
                let rec = &mut self.balances[bi];
                rec.amount = cur - amount;
                proof {
                    assert(bal_key(self.balances@[bi as int]) == bal_key(pre[bi as int]));
                    lemma_balance_update(pre, bi as int, self.balances@[bi as int]);
                }
                Ok(())
            },
            None => {
                if amount == 0 {
                    Ok(())
                } else {
                    Err(LedgerError::InsufficientBalance)
                }
            },
        }
    }
}

} // verus!
