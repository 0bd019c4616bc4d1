//! The license registry: creation and revocation of license records, with
//! the per-asset guard consulted and updated so that the exclusivity
//! invariant holds after every transition.
//!
//! The mathematical model is `RegistryView`: the license records in creation
//! order and the guard records, one per asset ever referenced. The two
//! transitions `step_initialize` and `step_revoke` say exactly what each
//! operation returns and how it changes the state; the executable `Registry`
//! is proved to follow them, and `RegistryView::inv` — the exclusivity
//! invariant among other well-formedness — is proved to be preserved.
//!
//! In the deployed system each record lives in its own storage cell and every
//! transition runs in an atomic critical section per record; the model is the
//! linearization of those sections, one transition at a time.

use vstd::prelude::*;
use vstd::string::StrSliceExecFns;
use crate::guard::LicenseGuard;
use crate::license::{
    active_exclusive_count, is_active_exclusive_for, lemma_count_member, lemma_count_push,
    lemma_count_update, lemma_count_zero, License,
};
use crate::types::{
    bytes32_eq, derive_license_id, pubkey_eq, LicenseError, LicenseId, LicenseType, Pubkey,
    MAX_TERMS_CID_LEN, MAX_TERRITORY_LEN,
};

verus! {

/// Event payload of a successful license creation, returned to the caller
/// for emission on the hosting environment's channel.
#[derive(Clone, Copy, Debug, PartialEq, Eq)]
pub struct LicenseInitialized {
    pub license: LicenseId,
    pub issuer: Pubkey,
    pub licensee: Pubkey,
    pub license_type: LicenseType,
}

/// Event payload of a successful license revocation.
#[derive(Clone, Copy, Debug, PartialEq, Eq)]
pub struct LicenseRevoked {
    pub license: LicenseId,
    pub revoked_by: Pubkey,
}

/// The mathematical state of a registry: license records in creation order,
/// and one guard record per asset ever referenced.
#[verifier::ext_equal]
pub struct RegistryView {
    pub licenses: Seq<License>,
    pub guards: Seq<LicenseGuard>,
}

/// A guard record for asset `h` exists.
pub open spec fn has_guard(guards: Seq<LicenseGuard>, h: Seq<u8>) -> bool {
    exists|i: int| 0 <= i < guards.len() && guards[i].beat_hash@ == h
}

/// The index of the guard record for asset `h`, where one exists.
pub open spec fn guard_index(guards: Seq<LicenseGuard>, h: Seq<u8>) -> int {
    choose|i: int| 0 <= i < guards.len() && guards[i].beat_hash@ == h
}

/// An exclusive license is recorded as active for asset `h`.
pub open spec fn guard_active(guards: Seq<LicenseGuard>, h: Seq<u8>) -> bool {
    has_guard(guards, h) && guards[guard_index(guards, h)].exclusive_active
}

/// `l` is stored under the identifier derived from asset `h` and licensee `e`.
pub open spec fn license_key_matches(l: License, h: Seq<u8>, e: Seq<u8>) -> bool {
    l.beat_hash@ == h && l.licensee@ == e
}

/// A license record exists under the identifier derived from `h` and `e`.
pub open spec fn has_license(licenses: Seq<License>, h: Seq<u8>, e: Seq<u8>) -> bool {
    exists|i: int| 0 <= i < licenses.len() && license_key_matches(licenses[i], h, e)
}

/// The index of that license record, where one exists.
pub open spec fn license_index(licenses: Seq<License>, h: Seq<u8>, e: Seq<u8>) -> int {
    choose|i: int| 0 <= i < licenses.len() && license_key_matches(licenses[i], h, e)
}

impl RegistryView {
    /// The registry's well-formedness: guard identities are unique, license
    /// identifiers are unique, every license's asset has a guard, string
    /// fields are bounded, and — the central exclusivity invariant — each
    /// guard's flag equals the count of non-revoked exclusive licenses for
    /// its asset, a count that is therefore never above one.
    pub open spec fn inv(self) -> bool {
        &&& (forall|i: int, j: int|
            0 <= i < self.guards.len() && 0 <= j < self.guards.len() && i != j
                ==> (#[trigger] self.guards[i]).beat_hash@ != (#[trigger] self.guards[j]).beat_hash@)
        &&& (forall|i: int, j: int|
            0 <= i < self.licenses.len() && 0 <= j < self.licenses.len() && i != j
                ==> !((#[trigger] self.licenses[i]).beat_hash@ == (
                #[trigger] self.licenses[j]).beat_hash@
                    && self.licenses[i].licensee@ == self.licenses[j].licensee@))
        &&& (forall|i: int|
            0 <= i < self.licenses.len() ==> has_guard(
                self.guards,
                (#[trigger] self.licenses[i]).beat_hash@,
            ))
        &&& (forall|i: int| 0 <= i < self.licenses.len() ==> (#[trigger] self.licenses[i]).wf())
        &&& (forall|i: int|
            0 <= i < self.guards.len() ==> active_exclusive_count(
                self.licenses,
                (#[trigger] self.guards[i]).beat_hash@,
            ) == (if self.guards[i].exclusive_active {
                1nat
            } else {
                0nat
            }))
    }
}

/// The outcome of a creation request: the successor state and the result the
/// caller sees. The checks run in order — exclusivity conflict, field
/// bounds, identifier collision — and a failing request changes nothing.
/// A guard mismatch cannot arise here: guards are resolved by the very hash
/// their identity is checked against.
pub open spec fn step_initialize(
    v: RegistryView,
    signer: Pubkey,
    beat_hash: [u8; 32],
    licensee: Pubkey,
    beat_mint: Pubkey,
    terms_cid: String,
    license_type: LicenseType,
    territory: String,
    valid_until: i64,
) -> (RegistryView, Result<LicenseInitialized, LicenseError>) {
    let h = beat_hash@;
    if license_type == LicenseType::Exclusive && guard_active(v.guards, h) {
        (v, Err(LicenseError::ExclusiveLicenseExists))
    } else if terms_cid@.len() > MAX_TERMS_CID_LEN {
        (v, Err(LicenseError::FieldTooLong))
    } else if territory@.len() > MAX_TERRITORY_LEN {
        (v, Err(LicenseError::FieldTooLong))
    } else if has_license(v.licenses, h, licensee@) {
        (v, Err(LicenseError::LicenseAlreadyExists))
    } else {
        let lic = License {
            issuer: signer,
            licensee,
            beat_mint,
            beat_hash,
            terms_cid,
            license_type,
            territory,
            valid_until,
            revoked: false,
        };
        let guards2 = if has_guard(v.guards, h) {
            if license_type == LicenseType::Exclusive {
                let g = guard_index(v.guards, h);
                v.guards.update(
                    g,
                    LicenseGuard { beat_hash: v.guards[g].beat_hash, exclusive_active: true },
                )
            } else {
                v.guards
            }
        } else {
            v.guards.push(
                LicenseGuard {
                    beat_hash,
                    exclusive_active: license_type == LicenseType::Exclusive,
                },
            )
        };
        let ev = LicenseInitialized {
            license: LicenseId { beat_hash, licensee },
            issuer: signer,
            licensee,
            license_type,
        };
        (RegistryView { licenses: v.licenses.push(lic), guards: guards2 }, Ok(ev))
    }
}

/// The outcome of a revocation request: lookup, authorization against the
/// recorded issuer, the one-way flip of `revoked`, and — for an exclusive
/// license — the release of the asset's guard. A failing request changes
/// nothing.
pub open spec fn step_revoke(v: RegistryView, signer: Pubkey, license: LicenseId) -> (
    RegistryView,
    Result<LicenseRevoked, LicenseError>,
) {
    let h = license.beat_hash@;
    let e = license.licensee@;
    if !has_license(v.licenses, h, e) {
        (v, Err(LicenseError::NotFound))
    } else {
        let i = license_index(v.licenses, h, e);
        let lic = v.licenses[i];
        if lic.issuer@ != signer@ {
            (v, Err(LicenseError::UnauthorizedRevoker))
        } else if lic.revoked {
            (v, Err(LicenseError::AlreadyRevoked))
        } else {
            let lic2 = License {
                issuer: lic.issuer,
                licensee: lic.licensee,
                beat_mint: lic.beat_mint,
                beat_hash: lic.beat_hash,
                terms_cid: lic.terms_cid,
                license_type: lic.license_type,
                territory: lic.territory,
                valid_until: lic.valid_until,
                revoked: true,
            };
            let guards2 = if lic.license_type == LicenseType::Exclusive && has_guard(
                v.guards,
                lic.beat_hash@,
            ) {
                let g = guard_index(v.guards, lic.beat_hash@);
                v.guards.update(
                    g,
                    LicenseGuard { beat_hash: v.guards[g].beat_hash, exclusive_active: false },
                )
            } else {
                v.guards
            };
            (
                RegistryView { licenses: v.licenses.update(i, lic2), guards: guards2 },
                Ok(LicenseRevoked { license, revoked_by: signer }),
            )
        }
    }
}

/// Creation preserves the registry invariant.
pub proof fn lemma_step_initialize_preserves_inv(
    v: RegistryView,
    signer: Pubkey,
    beat_hash: [u8; 32],
    licensee: Pubkey,
    beat_mint: Pubkey,
    terms_cid: String,
    license_type: LicenseType,
    territory: String,
    valid_until: i64,
)
    requires
        v.inv(),
    ensures
        step_initialize(
            v,
            signer,
            beat_hash,
            licensee,
            beat_mint,
            terms_cid,
            license_type,
            territory,
            valid_until,
        ).0.inv(),
{
    let h = beat_hash@;
    let e = licensee@;
    let (v2, res) = step_initialize(
        v,
        signer,
        beat_hash,
        licensee,
        beat_mint,
        terms_cid,
        license_type,
        territory,
        valid_until,
    );
    let exclusive = license_type == LicenseType::Exclusive;
    if !(exclusive && guard_active(v.guards, h)) && terms_cid@.len() <= MAX_TERMS_CID_LEN
        && territory@.len() <= MAX_TERRITORY_LEN && !has_license(v.licenses, h, e) {
        let lic = License {
            issuer: signer,
            licensee,
            beat_mint,
            beat_hash,
            terms_cid,
            license_type,
            territory,
            valid_until,
            revoked: false,
        };
        assert(v2.licenses == v.licenses.push(lic));
        // No license for asset `h` exists without a guard for `h`; and where
        // the guard exists but is inactive, the count is zero as well.
        if has_guard(v.guards, h) {
            let g = guard_index(v.guards, h);
            assert(0 <= g < v.guards.len() && v.guards[g].beat_hash@ == h);
            if exclusive {
                assert(!v.guards[g].exclusive_active);
                assert(active_exclusive_count(v.licenses, h) == 0);
                assert(v2.guards == v.guards.update(
                    g,
                    LicenseGuard { beat_hash: v.guards[g].beat_hash, exclusive_active: true },
                ));
            } else {
                assert(v2.guards == v.guards);
            }
            assert(forall|k: int|
                0 <= k < v2.guards.len() ==> (#[trigger] v2.guards[k]).beat_hash@
                    == v.guards[k].beat_hash@);
        } else {
            assert forall|k: int| 0 <= k < v.licenses.len() implies !is_active_exclusive_for(
                #[trigger] v.licenses[k],
                h,
            ) by {
                assert(has_guard(v.guards, v.licenses[k].beat_hash@));
            }
            lemma_count_zero(v.licenses, h);
            assert(v2.guards == v.guards.push(
                LicenseGuard { beat_hash, exclusive_active: exclusive },
            ));
        }
        // Guard identities stay unique.
        assert forall|i: int, j: int|
            0 <= i < v2.guards.len() && 0 <= j < v2.guards.len() && i != j implies (
        #[trigger] v2.guards[i]).beat_hash@ != (#[trigger] v2.guards[j]).beat_hash@ by {
            if has_guard(v.guards, h) {
            } else {
                if i < v.guards.len() && j < v.guards.len() {
                } else if i == v.guards.len() {
                    assert(v2.guards[j].beat_hash@ == v.guards[j].beat_hash@);
                    assert(!(v.guards[j].beat_hash@ == h));
                } else {
                    assert(v2.guards[i].beat_hash@ == v.guards[i].beat_hash@);
                    assert(!(v.guards[i].beat_hash@ == h));
                }
            }
        }
        // License identifiers stay unique: the new record's identifier was free.
        assert forall|i: int, j: int|
            0 <= i < v2.licenses.len() && 0 <= j < v2.licenses.len() && i != j implies !((
        #[trigger] v2.licenses[i]).beat_hash@ == (#[trigger] v2.licenses[j]).beat_hash@
            && v2.licenses[i].licensee@ == v2.licenses[j].licensee@) by {
            if i < v.licenses.len() && j < v.licenses.len() {
            } else if j == v.licenses.len() {
                assert(v2.licenses[j] == lic);
                assert(!license_key_matches(v.licenses[i], h, e));
            } else {
                assert(v2.licenses[i] == lic);
                assert(!license_key_matches(v.licenses[j], h, e));
            }
        }
        // Every license's asset still has a guard.
        assert forall|i: int| 0 <= i < v2.licenses.len() implies has_guard(
            v2.guards,
            (#[trigger] v2.licenses[i]).beat_hash@,
        ) by {
            if i < v.licenses.len() {
                let hh = v.licenses[i].beat_hash@;
                assert(has_guard(v.guards, hh));
                let g = guard_index(v.guards, hh);
                assert(0 <= g < v.guards.len() && v.guards[g].beat_hash@ == hh);
                assert(v2.guards[g].beat_hash@ == hh);
            } else {
                if has_guard(v.guards, h) {
                    let g = guard_index(v.guards, h);
                    assert(v2.guards[g].beat_hash@ == h);
                } else {
                    assert(v2.guards[v.guards.len() as int].beat_hash@ == h);
                }
            }
        }
        // The count matches every guard's flag.
        assert forall|k: int| 0 <= k < v2.guards.len() implies active_exclusive_count(
            v2.licenses,
            (#[trigger] v2.guards[k]).beat_hash@,
        ) == (if v2.guards[k].exclusive_active {
            1nat
        } else {
            0nat
        }) by {
            let hk = v2.guards[k].beat_hash@;
            lemma_count_push(v.licenses, hk, lic);
            if hk == h {
                if exclusive {
                    assert(active_exclusive_count(v.licenses, h) == 0);
                    assert(v2.guards[k].exclusive_active);
                } else {
                    assert(!is_active_exclusive_for(lic, hk));
                    if has_guard(v.guards, h) {
                        assert(v2.guards == v.guards);
                        assert(v.guards[k].beat_hash@ == h);
                    } else {
                        assert(active_exclusive_count(v.licenses, h) == 0);
                        assert(!v2.guards[k].exclusive_active);
                    }
                }
            } else {
                assert(!is_active_exclusive_for(lic, hk));
                if k < v.guards.len() {
                    assert(v2.guards[k].exclusive_active == v.guards[k].exclusive_active);
                    assert(v.guards[k].beat_hash@ == hk);
                }
            }
        }
    }
}

/// Revocation preserves the registry invariant.
pub proof fn lemma_step_revoke_preserves_inv(v: RegistryView, signer: Pubkey, license: LicenseId)
    requires
        v.inv(),
    ensures
        step_revoke(v, signer, license).0.inv(),
{
    let h = license.beat_hash@;
    let e = license.licensee@;
    let (v2, res) = step_revoke(v, signer, license);
    if has_license(v.licenses, h, e) {
        let i = license_index(v.licenses, h, e);
        assert(0 <= i < v.licenses.len() && license_key_matches(v.licenses[i], h, e));
        let lic = v.licenses[i];
        if lic.issuer@ == signer@ && !lic.revoked {
            let lic2 = License {
                issuer: lic.issuer,
                licensee: lic.licensee,
                beat_mint: lic.beat_mint,
                beat_hash: lic.beat_hash,
                terms_cid: lic.terms_cid,
                license_type: lic.license_type,
                territory: lic.territory,
                valid_until: lic.valid_until,
                revoked: true,
            };
            assert(v2.licenses == v.licenses.update(i, lic2));
            assert(forall|k: int|
                0 <= k < v2.licenses.len() ==> (#[trigger] v2.licenses[k]).beat_hash@
                    == v.licenses[k].beat_hash@ && v2.licenses[k].licensee@
                    == v.licenses[k].licensee@);
            assert(forall|k: int|
                0 <= k < v2.guards.len() ==> (#[trigger] v2.guards[k]).beat_hash@
                    == v.guards[k].beat_hash@);
            assert(forall|k: int| 0 <= k < v2.licenses.len() ==> (#[trigger] v2.licenses[k]).wf());
            // Guard uniqueness, identifier uniqueness, and guard existence
            // carry over pointwise.
            assert forall|a: int, b: int|
                0 <= a < v2.guards.len() && 0 <= b < v2.guards.len() && a != b implies (
            #[trigger] v2.guards[a]).beat_hash@ != (#[trigger] v2.guards[b]).beat_hash@ by {
                assert(v.guards[a].beat_hash@ != v.guards[b].beat_hash@);
            }
            assert forall|a: int, b: int|
                0 <= a < v2.licenses.len() && 0 <= b < v2.licenses.len() && a != b implies !((
            #[trigger] v2.licenses[a]).beat_hash@ == (#[trigger] v2.licenses[b]).beat_hash@
                && v2.licenses[a].licensee@ == v2.licenses[b].licensee@) by {
                assert(!(v.licenses[a].beat_hash@ == v.licenses[b].beat_hash@
                    && v.licenses[a].licensee@ == v.licenses[b].licensee@));
            }
            assert forall|k: int| 0 <= k < v2.licenses.len() implies has_guard(
                v2.guards,
                (#[trigger] v2.licenses[k]).beat_hash@,
            ) by {
                let hh = v.licenses[k].beat_hash@;
                assert(has_guard(v.guards, hh));
                let g = guard_index(v.guards, hh);
                assert(0 <= g < v.guards.len() && v.guards[g].beat_hash@ == hh);
                assert(v2.guards[g].beat_hash@ == hh);
            }
            // The count matches every guard's flag after the flip.
            assert forall|k: int| 0 <= k < v2.guards.len() implies active_exclusive_count(
                v2.licenses,
                (#[trigger] v2.guards[k]).beat_hash@,
            ) == (if v2.guards[k].exclusive_active {
                1nat
            } else {
                0nat
            }) by {
                let hk = v2.guards[k].beat_hash@;
                lemma_count_update(v.licenses, hk, i, lic2);
                assert(!is_active_exclusive_for(lic2, hk));
                if lic.license_type == LicenseType::Exclusive && hk == lic.beat_hash@ {
                    lemma_count_member(v.licenses, hk, i);
                    assert(active_exclusive_count(v.licenses, hk) >= 1);
                    assert(v.guards[k].exclusive_active);
                    assert(active_exclusive_count(v.licenses, hk) == 1);
                    assert(active_exclusive_count(v2.licenses, hk) == 0);
                    let g = guard_index(v.guards, lic.beat_hash@);
                    assert(has_guard(v.guards, lic.beat_hash@));
                    assert(0 <= g < v.guards.len() && v.guards[g].beat_hash@ == lic.beat_hash@);
                    assert(g == k);
                    assert(!v2.guards[k].exclusive_active);
                } else {
                    assert(!is_active_exclusive_for(lic, hk));
                    assert(active_exclusive_count(v2.licenses, hk) == active_exclusive_count(
                        v.licenses,
                        hk,
                    ));
                    if lic.license_type == LicenseType::Exclusive && has_guard(
                        v.guards,
                        lic.beat_hash@,
                    ) {
                        let g = guard_index(v.guards, lic.beat_hash@);
                        assert(v.guards[g].beat_hash@ == lic.beat_hash@);
                        assert(g != k);
                        assert(v2.guards[k].exclusive_active == v.guards[k].exclusive_active);
                    }
                }
            }
        }
    }
}

/// A license registry. In the deployed system each record lives in its own
/// storage cell and every operation runs in an atomic critical section per
/// record; here the registry holds the records as one value, with
/// `initialize` and `revoke` as the atomic transitions of the resulting
/// linearization.
pub struct Registry {
    licenses: Vec<License>,
    guards: Vec<LicenseGuard>,
}

impl View for Registry {
    type V = RegistryView;

    closed spec fn view(&self) -> RegistryView {
        RegistryView { licenses: self.licenses@, guards: self.guards@ }
    }
}

impl Registry {
    /// An empty registry: no licenses, no guards.
    pub fn new() -> (r: Registry)
        ensures
            r@.licenses == Seq::<License>::empty(),
            r@.guards == Seq::<LicenseGuard>::empty(),
            r@.inv(),
    {
        Registry { licenses: Vec::new(), guards: Vec::new() }
    }

    /// Finds the guard record for `beat_hash`, if one exists.
    fn find_guard(&self, beat_hash: &[u8; 32]) -> (r: Option<usize>)
        ensures
            match r {
                Some(i) => i < self@.guards.len() && self@.guards[i as int].beat_hash@
                    == beat_hash@,
                None => !has_guard(self@.guards, beat_hash@),
            },
    {
        let mut i: usize = 0;
        while i < self.guards.len()
            invariant
                i <= self.guards.len(),
                forall|k: int| 0 <= k < i ==> (#[trigger] self.guards@[k]).beat_hash@ != beat_hash@,
            decreases self.guards.len() - i,
        {
            if bytes32_eq(&self.guards[i].beat_hash, beat_hash) {
                return Some(i);
            }
            i += 1;
        }
        None
    }

    /// Finds the license record stored under the identifier derived from
    /// `beat_hash` and `licensee`, if one exists.
    fn find_license(&self, beat_hash: &[u8; 32], licensee: &Pubkey) -> (r: Option<usize>)
        ensures
            match r {
                Some(i) => i < self@.licenses.len() && license_key_matches(
                    self@.licenses[i as int],
                    beat_hash@,
                    licensee@,
                ),
                None => !has_license(self@.licenses, beat_hash@, licensee@),
            },
    {
        let mut i: usize = 0;
        while i < self.licenses.len()
            invariant
                i <= self.licenses.len(),
                forall|k: int|
                    0 <= k < i ==> !license_key_matches(
                        #[trigger] self.licenses@[k],
                        beat_hash@,
                        licensee@,
                    ),
            decreases self.licenses.len() - i,
        {
            let found = {
                let lr = &self.licenses[i];
                bytes32_eq(&lr.beat_hash, beat_hash) && pubkey_eq(&lr.licensee, licensee)
            };
            if found {
                return Some(i);
            }
            i += 1;
        }
        None
    }

    /// Creates a license: resolves or lazily creates the asset's guard,
    /// acquires it for an exclusive grant, checks the field bounds and the
    /// derived identifier, and persists the record. Returns the event payload
    /// of the creation; on any failure nothing is changed.
    pub fn initialize(
        &mut self,
        signer: Pubkey,
        beat_hash: [u8; 32],
        licensee: Pubkey,
        beat_mint: Pubkey,
        terms_cid: String,
        license_type: LicenseType,
        territory: String,
        valid_until: i64,
    ) -> (r: Result<LicenseInitialized, LicenseError>)
        requires
            old(self)@.inv(),
        ensures
            final(self)@.inv(),
            ({
                let (v2, res) = step_initialize(
                    old(self)@,
                    signer,
                    beat_hash,
                    licensee,
                    beat_mint,
                    terms_cid,
                    license_type,
                    territory,
                    valid_until,
                );
                final(self)@ == v2 && r == res
            }),
    {
        let ghost v0 = self@;
        let ghost gterms = terms_cid;
        let ghost gterr = territory;
        let exclusive = license_type == LicenseType::Exclusive;
        let gi_opt = self.find_guard(&beat_hash);

        // A new exclusive grant needs a free guard.
        if exclusive {
            if let Some(gi) = gi_opt {
                if self.guards[gi].exclusive_active {
                    proof {
                        assert(has_guard(v0.guards, beat_hash@));
                        let ci = guard_index(v0.guards, beat_hash@);
                        assert(0 <= ci < v0.guards.len() && v0.guards[ci].beat_hash@
                            == beat_hash@);
                        assert(ci == gi as int);
                        assert(guard_active(v0.guards, beat_hash@));
                    }
                    return Err(LicenseError::ExclusiveLicenseExists);
                }
            }
        }
        proof {
            if exclusive && guard_active(v0.guards, beat_hash@) {
                let ci = guard_index(v0.guards, beat_hash@);
                assert(0 <= ci < v0.guards.len() && v0.guards[ci].beat_hash@ == beat_hash@);
                match gi_opt {
                    Some(gi) => {
                        assert(v0.guards[gi as int].beat_hash@ == beat_hash@);
                        assert(ci == gi as int);
                        assert(false);
                    },
                    None => {
                        assert(!has_guard(v0.guards, beat_hash@));
                        assert(false);
                    },
                }
            }
        }

        // Bounded fields.
        if terms_cid.as_str().unicode_len() > MAX_TERMS_CID_LEN {
            return Err(LicenseError::FieldTooLong);
        }
        if territory.as_str().unicode_len() > MAX_TERRITORY_LEN {
            return Err(LicenseError::FieldTooLong);
        }

        // The derived identifier must be free: the same (asset, licensee)
        // pair always addresses the same record.
        let li_opt = self.find_license(&beat_hash, &licensee);
        if li_opt.is_some() {
            return Err(LicenseError::LicenseAlreadyExists);
        }

        // Resolve or lazily create the guard, then acquire it if exclusive.
        let gi: usize = match gi_opt {
            Some(i) => i,
            None => {
                let n = self.guards.len();
                self.guards.push(LicenseGuard { beat_hash, exclusive_active: false });
                n
            },
        };
        {
            let g = &mut self.guards[gi];
            // The guard stands under the very hash its identity is checked
            // against, and a free guard was checked for above, so neither
            // call can fail here; both error paths are provably dead.
            match g.ensure_initialized(&beat_hash) {
                Ok(()) => {},
                Err(e) => {
                    proof {
                        assert(false);
                    }
                    return Err(e);
                },
            }
            if exclusive {
                match g.acquire_exclusive() {
                    Ok(()) => {},
                    Err(e) => {
                        proof {
                            assert(false);
                        }
                        return Err(e);
                    },
                }
            }
        }

        // Persist the record.
        let lic = License {
            issuer: signer,
            licensee,
            beat_mint,
            beat_hash,
            terms_cid,
            license_type,
            territory,
            valid_until,
            revoked: false,
        };
        let ghost glic = lic;
        self.licenses.push(lic);
        proof {
            let (v2, res) = step_initialize(
                v0,
                signer,
                beat_hash,
                licensee,
                beat_mint,
                gterms,
                license_type,
                gterr,
                valid_until,
            );
            assert(self@.licenses =~= v0.licenses.push(glic));
            match gi_opt {
                Some(i) => {
                    assert(has_guard(v0.guards, beat_hash@));
                    let ci = guard_index(v0.guards, beat_hash@);
                    assert(0 <= ci < v0.guards.len() && v0.guards[ci].beat_hash@ == beat_hash@);
                    assert(ci == i as int);
                    if exclusive {
                        assert(self@.guards =~= v0.guards.update(
                            ci,
                            LicenseGuard {
                                beat_hash: v0.guards[ci].beat_hash,
                                exclusive_active: true,
                            },
                        ));
                    } else {
                        assert(self@.guards =~= v0.guards);
                    }
                },
                None => {
                    assert(!has_guard(v0.guards, beat_hash@));
                    assert(self@.guards =~= v0.guards.push(
                        LicenseGuard { beat_hash, exclusive_active: exclusive },
                    ));
                },
            }
            assert(self@ =~= v2);
            lemma_step_initialize_preserves_inv(
                v0,
                signer,
                beat_hash,
                licensee,
                beat_mint,
                gterms,
                license_type,
                gterr,
                valid_until,
            );
        }
        Ok(
            LicenseInitialized {
                license: derive_license_id(beat_hash, licensee),
                issuer: signer,
                licensee,
                license_type,
            },
        )
    }

    /// Revokes a license: only its recorded issuer may do so, a revoked
    /// license cannot be revoked again, and revoking an exclusive license
    /// releases the asset's guard. Returns the event payload of the
    /// revocation; on any failure nothing is changed.
    pub fn revoke(&mut self, signer: Pubkey, license: LicenseId) -> (r: Result<
        LicenseRevoked,
        LicenseError,
    >)
        requires
            old(self)@.inv(),
        ensures
            final(self)@.inv(),
            ({
                let (v2, res) = step_revoke(old(self)@, signer, license);
                final(self)@ == v2 && r == res
            }),
    {
        let ghost v0 = self@;
        let li_opt = self.find_license(&license.beat_hash, &license.licensee);
        let li: usize = match li_opt {
            None => {
                return Err(LicenseError::NotFound);
            },
            Some(i) => i,
        };
        proof {
            assert(has_license(v0.licenses, license.beat_hash@, license.licensee@));
            let ci = license_index(v0.licenses, license.beat_hash@, license.licensee@);
            assert(0 <= ci < v0.licenses.len() && license_key_matches(
                v0.licenses[ci],
                license.beat_hash@,
                license.licensee@,
            ));
            assert(ci == li as int);
        }

        // Only the recorded issuer may revoke.
        let authorized = {
            let lr = &self.licenses[li];
            pubkey_eq(&lr.issuer, &signer)
        };
        if !authorized {
            return Err(LicenseError::UnauthorizedRevoker);
        }

        // Revocation is observable as an error when repeated.
        let already = {
            let lr = &self.licenses[li];
            lr.revoked
        };
        if already {
            return Err(LicenseError::AlreadyRevoked);
        }

        let was_exclusive: bool;
        let lic_hash: [u8; 32];
        {
            let lr = &self.licenses[li];
            was_exclusive = lr.license_type == LicenseType::Exclusive;
            lic_hash = lr.beat_hash;
        }

        // The one-way flip.
        {
            let lm = &mut self.licenses[li];
            lm.revoked = true;
        }

        // Free the asset for a future exclusive grant.
        if was_exclusive {
            if let Some(gi) = self.find_guard(&lic_hash) {
                let g = &mut self.guards[gi];
                g.release();
            }
        }

        proof {
            let (v2, res) = step_revoke(v0, signer, license);
            let i = license_index(v0.licenses, license.beat_hash@, license.licensee@);
            let lic = v0.licenses[i];
            let lic2 = License {
                issuer: lic.issuer,
                licensee: lic.licensee,
                beat_mint: lic.beat_mint,
                beat_hash: lic.beat_hash,
                terms_cid: lic.terms_cid,
                license_type: lic.license_type,
                territory: lic.territory,
                valid_until: lic.valid_until,
                revoked: true,
            };
            assert(self@.licenses =~= v0.licenses.update(i, lic2));
            if was_exclusive && has_guard(v0.guards, lic.beat_hash@) {
                let g = guard_index(v0.guards, lic.beat_hash@);
                assert(0 <= g < v0.guards.len() && v0.guards[g].beat_hash@ == lic.beat_hash@);
                assert(self@.guards =~= v0.guards.update(
                    g,
                    LicenseGuard { beat_hash: v0.guards[g].beat_hash, exclusive_active: false },
                ));
            } else {
                assert(self@.guards =~= v0.guards);
            }
            assert(self@ =~= v2);
            lemma_step_revoke_preserves_inv(v0, signer, license);
        }
        Ok(LicenseRevoked { license, revoked_by: signer })
    }

    /// Whether an exclusive license is currently recorded as active for the
    /// asset.
    pub fn is_exclusive_active(&self, beat_hash: &[u8; 32]) -> (r: bool)
        requires
            self@.inv(),
        ensures
            r == guard_active(self@.guards, beat_hash@),
    {
        match self.find_guard(beat_hash) {
            None => false,
            Some(gi) => {
                let act = self.guards[gi].exclusive_active;
                proof {
                    assert(has_guard(self@.guards, beat_hash@));
                    let ci = guard_index(self@.guards, beat_hash@);
                    assert(0 <= ci < self@.guards.len() && self@.guards[ci].beat_hash@
                        == beat_hash@);
                    assert(ci == gi as int);
                }
                act
            },
        }
    }

    /// Whether a guard record exists for the asset.
    pub fn guard_exists(&self, beat_hash: &[u8; 32]) -> (r: bool)
        ensures
            r == has_guard(self@.guards, beat_hash@),
    {
        self.find_guard(beat_hash).is_some()
    }

    /// Looks a license record up by its identifier.
    pub fn get_license(&self, license: LicenseId) -> (r: Option<&License>)
        requires
            self@.inv(),
        ensures
            match r {
                Some(l) => has_license(self@.licenses, license.beat_hash@, license.licensee@)
                    && *l == self@.licenses[license_index(
                    self@.licenses,
                    license.beat_hash@,
                    license.licensee@,
                )],
                None => !has_license(self@.licenses, license.beat_hash@, license.licensee@),
            },
    {
        match self.find_license(&license.beat_hash, &license.licensee) {
            None => None,
            Some(i) => {
                proof {
                    assert(has_license(self@.licenses, license.beat_hash@, license.licensee@));
                    let ci = license_index(self@.licenses, license.beat_hash@, license.licensee@);
                    assert(0 <= ci < self@.licenses.len() && license_key_matches(
                        self@.licenses[ci],
                        license.beat_hash@,
                        license.licensee@,
                    ));
                    assert(ci == i as int);
                }
                Some(&self.licenses[i])
            },
        }
    }

    /// The number of license records ever created.
    pub fn license_count(&self) -> (n: usize)
        ensures
            n == self@.licenses.len(),
    {
        self.licenses.len()
    }

    /// The number of assets ever referenced.
    pub fn guard_count(&self) -> (n: usize)
        ensures
            n == self@.guards.len(),
    {
        self.guards.len()
    }
}

} // verus!
