//! The registry's guarantees, stated and proved over the mathematical model:
//! the exclusivity invariant, monotonic revocation, issuer-only
//! authorization, guard release correctness, and the linearized outcome of a
//! race of exclusive creation requests.

use vstd::prelude::*;
use crate::guard::LicenseGuard;
use crate::license::{active_exclusive_count, is_active_exclusive_for, lemma_count_zero};
use crate::registry::{
    guard_active, guard_index, has_guard, has_license, lemma_step_initialize_preserves_inv,
    license_index, step_initialize, step_revoke, LicenseInitialized, LicenseRevoked, RegistryView,
};
use crate::types::{
    LicenseError, LicenseId, LicenseType, Pubkey, MAX_TERMS_CID_LEN, MAX_TERRITORY_LEN,
};

verus! {

/// Exclusivity invariant: in every well-formed registry state, the number of
/// non-revoked exclusive licenses for an asset is zero or one, and the
/// guard's `exclusive_active` flag for that asset holds exactly when it is
/// one.
pub proof fn lemma_exclusivity_invariant(v: RegistryView, h: Seq<u8>)
    requires
        v.inv(),
    ensures
        active_exclusive_count(v.licenses, h) <= 1,
        guard_active(v.guards, h) <==> active_exclusive_count(v.licenses, h) == 1,
{
    if has_guard(v.guards, h) {
        let g = guard_index(v.guards, h);
        assert(0 <= g < v.guards.len() && v.guards[g].beat_hash@ == h);
        assert(active_exclusive_count(v.licenses, h) == (if v.guards[g].exclusive_active {
            1nat
        } else {
            0nat
        }));
    } else {
        assert forall|i: int| 0 <= i < v.licenses.len() implies !is_active_exclusive_for(
            #[trigger] v.licenses[i],
            h,
        ) by {
            assert(has_guard(v.guards, v.licenses[i].beat_hash@));
        }
        lemma_count_zero(v.licenses, h);
    }
}

/// Monotonic revocation, creation half: a creation appends one record and
/// leaves every existing record — its `revoked` flag included — unchanged.
pub proof fn lemma_initialize_monotonic(
    v: RegistryView,
    signer: Pubkey,
    beat_hash: [u8; 32],
    licensee: Pubkey,
    beat_mint: Pubkey,
    terms_cid: String,
    license_type: LicenseType,
    territory: String,
    valid_until: i64,
)
    ensures
        ({
            let (v2, res) = step_initialize(
                v,
                signer,
                beat_hash,
                licensee,
                beat_mint,
                terms_cid,
                license_type,
                territory,
                valid_until,
            );
            &&& v2.licenses.len() >= v.licenses.len()
            &&& forall|i: int|
                0 <= i < v.licenses.len() ==> #[trigger] v2.licenses[i] == v.licenses[i]
        }),
{
}

/// Monotonic revocation, revocation half: a revocation never clears a
/// `revoked` flag, and never changes a record's issuer, asset, licensee or
/// kind — once revoked, a record stays revoked under every operation.
pub proof fn lemma_revoke_monotonic(v: RegistryView, signer: Pubkey, license: LicenseId)
    ensures
        ({
            let (v2, res) = step_revoke(v, signer, license);
            &&& v2.licenses.len() == v.licenses.len()
            &&& forall|i: int|
                0 <= i < v.licenses.len() ==> ((#[trigger] v.licenses[i]).revoked
                    ==> v2.licenses[i].revoked)
            &&& forall|i: int|
                0 <= i < v.licenses.len() ==> (#[trigger] v2.licenses[i]).issuer
                    == v.licenses[i].issuer && v2.licenses[i].licensee == v.licenses[i].licensee
                    && v2.licenses[i].beat_hash == v.licenses[i].beat_hash
                    && v2.licenses[i].license_type == v.licenses[i].license_type
        }),
{
}

/// Authorization: a revocation succeeds only when the caller is the recorded
/// issuer; any other caller gets `UnauthorizedRevoker` and the state — the
/// license in particular — is left unchanged.
pub proof fn lemma_revoke_authorization(v: RegistryView, signer: Pubkey, license: LicenseId)
    ensures
        ({
            let (v2, res) = step_revoke(v, signer, license);
            let i = license_index(v.licenses, license.beat_hash@, license.licensee@);
            &&& (res is Ok ==> has_license(v.licenses, license.beat_hash@, license.licensee@)
                && v.licenses[i].issuer@ == signer@)
            &&& (has_license(v.licenses, license.beat_hash@, license.licensee@)
                && v.licenses[i].issuer@ != signer@ ==> res == Err::<LicenseRevoked, LicenseError>(
                LicenseError::UnauthorizedRevoker,
            ) && v2 == v)
        }),
{
}

/// Release correctness: revoking an exclusive license clears its asset's
/// guard; revoking a non-exclusive license alters no guard at all.
pub proof fn lemma_release_correctness(v: RegistryView, signer: Pubkey, license: LicenseId)
    requires
        v.inv(),
    ensures
        ({
            let (v2, res) = step_revoke(v, signer, license);
            let lic = v.licenses[license_index(v.licenses, license.beat_hash@, license.licensee@)];
            res is Ok ==> {
                &&& (lic.license_type == LicenseType::Exclusive ==> !guard_active(
                    v2.guards,
                    lic.beat_hash@,
                ))
                &&& (lic.license_type != LicenseType::Exclusive ==> v2.guards == v.guards)
            }
        }),
{
    let (v2, res) = step_revoke(v, signer, license);
    if res is Ok {
        let i = license_index(v.licenses, license.beat_hash@, license.licensee@);
        assert(0 <= i < v.licenses.len());
        let lic = v.licenses[i];
        if lic.license_type == LicenseType::Exclusive {
            assert(has_guard(v.guards, lic.beat_hash@));
            let g = guard_index(v.guards, lic.beat_hash@);
            assert(0 <= g < v.guards.len() && v.guards[g].beat_hash@ == lic.beat_hash@);
            if guard_active(v2.guards, lic.beat_hash@) {
                let g2 = guard_index(v2.guards, lic.beat_hash@);
                assert(0 <= g2 < v2.guards.len() && v2.guards[g2].beat_hash@ == lic.beat_hash@);
                assert(v2.guards[g as int].beat_hash@ == lic.beat_hash@);
                assert(g2 == g);
                assert(false);
            }
        }
    }
}

/// One creation request of a race, with everything but the asset and the
/// exclusivity left to the requester.
pub struct CreateRequest {
    pub signer: Pubkey,
    pub licensee: Pubkey,
    pub beat_mint: Pubkey,
    pub terms_cid: String,
    pub territory: String,
    pub valid_until: i64,
}

/// Runs a sequence of exclusive-license creation requests for one asset,
/// first to last — the linearization of a race of concurrent creators.
pub open spec fn run_exclusive_creates(
    v: RegistryView,
    beat_hash: [u8; 32],
    reqs: Seq<CreateRequest>,
) -> (RegistryView, Seq<Result<LicenseInitialized, LicenseError>>)
    decreases reqs.len(),
{
    if reqs.len() == 0 {
        (v, Seq::empty())
    } else {
        let q = reqs[0];
        let (v1, r0) = step_initialize(
            v,
            q.signer,
            beat_hash,
            q.licensee,
            q.beat_mint,
            q.terms_cid,
            LicenseType::Exclusive,
            q.territory,
            q.valid_until,
        );
        let (vrest, rest) = run_exclusive_creates(v1, beat_hash, reqs.drop_first());
        (vrest, seq![r0] + rest)
    }
}

/// While an exclusive license is active for an asset, every exclusive
/// creation request for it fails with `ExclusiveLicenseExists` and changes
/// nothing — whatever its other arguments.
pub proof fn lemma_exclusive_creates_all_fail(
    v: RegistryView,
    beat_hash: [u8; 32],
    reqs: Seq<CreateRequest>,
)
    requires
        guard_active(v.guards, beat_hash@),
    ensures
        ({
            let (v2, rs) = run_exclusive_creates(v, beat_hash, reqs);
            &&& v2 == v
            &&& rs.len() == reqs.len()
            &&& forall|k: int|
                0 <= k < rs.len() ==> #[trigger] rs[k] == Err::<LicenseInitialized, LicenseError>(
                    LicenseError::ExclusiveLicenseExists,
                )
        }),
    decreases reqs.len(),
{
    if reqs.len() > 0 {
        let q = reqs[0];
        let (v1, r0) = step_initialize(
            v,
            q.signer,
            beat_hash,
            q.licensee,
            q.beat_mint,
            q.terms_cid,
            LicenseType::Exclusive,
            q.territory,
            q.valid_until,
        );
        assert(v1 == v && r0 == Err::<LicenseInitialized, LicenseError>(
            LicenseError::ExclusiveLicenseExists,
        ));
        lemma_exclusive_creates_all_fail(v1, beat_hash, reqs.drop_first());
        let (v2, rs) = run_exclusive_creates(v, beat_hash, reqs);
        let (vrest, rest) = run_exclusive_creates(v1, beat_hash, reqs.drop_first());
        assert(rs == seq![r0] + rest);
        assert forall|k: int| 0 <= k < rs.len() implies #[trigger] rs[k] == Err::<
            LicenseInitialized,
            LicenseError,
        >(LicenseError::ExclusiveLicenseExists) by {
            if k == 0 {
                assert(rs[0] == r0);
            } else {
                assert(rs[k] == rest[k - 1]);
            }
        }
    }
}

/// Concurrency, linearized: any number of creation requests for an exclusive
/// license on a never-before-seen asset, run one after another in any order:
/// the first succeeds — provided its fields are within bounds — and every
/// other fails with `ExclusiveLicenseExists`. Exactly one creator wins.
pub proof fn lemma_exclusive_create_race(
    v: RegistryView,
    beat_hash: [u8; 32],
    reqs: Seq<CreateRequest>,
)
    requires
        v.inv(),
        !has_guard(v.guards, beat_hash@),
        reqs.len() >= 1,
        reqs[0].terms_cid@.len() <= MAX_TERMS_CID_LEN,
        reqs[0].territory@.len() <= MAX_TERRITORY_LEN,
    ensures
        ({
            let (v2, rs) = run_exclusive_creates(v, beat_hash, reqs);
            &&& rs.len() == reqs.len()
            &&& rs[0] is Ok
            &&& forall|k: int|
                1 <= k < rs.len() ==> #[trigger] rs[k] == Err::<LicenseInitialized, LicenseError>(
                    LicenseError::ExclusiveLicenseExists,
                )
        }),
{
    let q = reqs[0];
    let (v1, r0) = step_initialize(
        v,
        q.signer,
        beat_hash,
        q.licensee,
        q.beat_mint,
        q.terms_cid,
        LicenseType::Exclusive,
        q.territory,
        q.valid_until,
    );
    // A never-seen asset has no guard, hence no active exclusive license and
    // no record under any identifier with that hash: the first request
    // passes every check.
    assert(!guard_active(v.guards, beat_hash@));
    if has_license(v.licenses, beat_hash@, q.licensee@) {
        let i = license_index(v.licenses, beat_hash@, q.licensee@);
        assert(0 <= i < v.licenses.len() && v.licenses[i].beat_hash@ == beat_hash@);
        assert(has_guard(v.guards, v.licenses[i].beat_hash@));
        assert(false);
    }
    assert(r0 is Ok);
    lemma_step_initialize_preserves_inv(
        v,
        q.signer,
        beat_hash,
        q.licensee,
        q.beat_mint,
        q.terms_cid,
        LicenseType::Exclusive,
        q.territory,
        q.valid_until,
    );
    // The winner leaves the guard locked, so every later request fails.
    assert(v1.guards == v.guards.push(
        LicenseGuard { beat_hash, exclusive_active: true },
    ));
    let n = v.guards.len() as int;
    assert(v1.guards[n].beat_hash@ == beat_hash@);
    assert(has_guard(v1.guards, beat_hash@));
    let g = guard_index(v1.guards, beat_hash@);
    assert(0 <= g < v1.guards.len() && v1.guards[g].beat_hash@ == beat_hash@);
    assert(g == n);
    assert(guard_active(v1.guards, beat_hash@));
    lemma_exclusive_creates_all_fail(v1, beat_hash, reqs.drop_first());
    let (v2, rs) = run_exclusive_creates(v, beat_hash, reqs);
    let (vrest, rest) = run_exclusive_creates(v1, beat_hash, reqs.drop_first());
    assert(rs == seq![r0] + rest);
    assert(rs[0] == r0);
    assert forall|k: int| 1 <= k < rs.len() implies #[trigger] rs[k] == Err::<
        LicenseInitialized,
        LicenseError,
    >(LicenseError::ExclusiveLicenseExists) by {
        assert(rs[k] == rest[k - 1]);
    }
}

} // verus!
