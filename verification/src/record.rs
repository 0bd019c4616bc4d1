//! The two transitions as they run against the records themselves: the
//! hosting runtime resolves the license record and its asset's guard record,
//! hands them in, and stores what comes back. Everything the operation
//! decides happens here; the runtime only moves bytes.
//!
//! `Registry` in `crate::registry` is the same logic played against the
//! whole store at once; these functions are the per-record form that an
//! embedding with external storage calls.

use vstd::prelude::*;
use vstd::string::StrSliceExecFns;
use crate::guard::LicenseGuard;
use crate::license::License;
use crate::registry::{LicenseInitialized, LicenseRevoked};
use crate::types::{
    bytes32_eq, bytes32_is_zero, derive_license_id, pubkey_eq, LicenseError, LicenseId,
    LicenseType, Pubkey, MAX_TERMS_CID_LEN, MAX_TERRITORY_LEN,
};

verus! {

/// Creates a license against its asset's guard record: the guard adopts the
/// asset's identity on first use and must match it afterwards, an exclusive
/// grant acquires the guard, and the bounded fields are checked. On success
/// the license record to store and the creation event are returned; on any
/// failure the guard is left unchanged and no record is produced.
pub fn initialize_record(
    guard: &mut LicenseGuard,
    signer: Pubkey,
    beat_hash: [u8; 32],
    licensee: Pubkey,
    beat_mint: Pubkey,
    terms_cid: String,
    license_type: LicenseType,
    territory: String,
    valid_until: i64,
) -> (r: Result<(License, LicenseInitialized), LicenseError>)
    ensures
        ({
            let mismatch = !old(guard).is_uninitialized() && old(guard).beat_hash@ != beat_hash@;
            let conflict = license_type == LicenseType::Exclusive && old(guard).exclusive_active;
            let too_long = terms_cid@.len() > MAX_TERMS_CID_LEN || territory@.len()
                > MAX_TERRITORY_LEN;
            &&& (mismatch ==> r == Err::<(License, LicenseInitialized), LicenseError>(
                LicenseError::GuardMismatch,
            ) && *final(guard) == *old(guard))
            &&& (!mismatch && conflict ==> r == Err::<(License, LicenseInitialized), LicenseError>(
                LicenseError::ExclusiveLicenseExists,
            ) && *final(guard) == *old(guard))
            &&& (!mismatch && !conflict && too_long ==> r == Err::<
                (License, LicenseInitialized),
                LicenseError,
            >(LicenseError::FieldTooLong) && *final(guard) == *old(guard))
            &&& (!mismatch && !conflict && !too_long ==> {
                let lic = License {
                    issuer: signer,
                    licensee,
                    beat_mint,
                    beat_hash,
                    terms_cid,
                    license_type,
                    territory,
                    valid_until,
                    revoked: false,
                };
                let ev = LicenseInitialized {
                    license: (LicenseId { beat_hash, licensee }),
                    issuer: signer,
                    licensee,
                    license_type,
                };
                &&& r == Ok::<(License, LicenseInitialized), LicenseError>((lic, ev))
                &&& final(guard).beat_hash == (if old(guard).is_uninitialized() {
                    beat_hash
                } else {
                    old(guard).beat_hash
                })
                &&& final(guard).exclusive_active == (old(guard).exclusive_active || license_type
                    == LicenseType::Exclusive)
            })
        }),
{
    // Guard identity first, then the exclusivity conflict, then the bounds;
    // every check precedes every write, so a failure changes nothing.
    let fresh = bytes32_is_zero(&guard.beat_hash);
    if !fresh && !bytes32_eq(&guard.beat_hash, &beat_hash) {
        return Err(LicenseError::GuardMismatch);
    }
    if license_type == LicenseType::Exclusive && guard.exclusive_active {
        return Err(LicenseError::ExclusiveLicenseExists);
    }
    if terms_cid.as_str().unicode_len() > MAX_TERMS_CID_LEN {
        return Err(LicenseError::FieldTooLong);
    }
    if territory.as_str().unicode_len() > MAX_TERRITORY_LEN {
        return Err(LicenseError::FieldTooLong);
    }
    match guard.ensure_initialized(&beat_hash) {
        Ok(()) => {},
        Err(e) => {
            proof {
                assert(false);
            }
            return Err(e);
        },
    }
    if license_type == LicenseType::Exclusive {
        match guard.acquire_exclusive() {
            Ok(()) => {},
            Err(e) => {
                proof {
                    assert(false);
                }
                return Err(e);
            },
        }
    }
    proof {
        // Whether adopted now or stored before, the guard's identity equals
        // the requested hash, down to the value.
        assert(guard.beat_hash@ == beat_hash@);
        assert(guard.beat_hash =~= beat_hash);
    }
    let lic = License {
        issuer: signer,
        licensee,
        beat_mint,
        beat_hash,
        terms_cid,
        license_type,
        territory,
        valid_until,
        revoked: false,
    };
    let ev = LicenseInitialized {
        license: derive_license_id(beat_hash, licensee),
        issuer: signer,
        licensee,
        license_type,
    };
    Ok((lic, ev))
}

/// Revokes a license against its asset's guard record: only the recorded
/// issuer may revoke, a revoked license cannot be revoked again, and an
/// exclusive license releases the guard. The caller must hand in the guard
/// of the license's own asset, as the runtime's addressing guarantees.
pub fn revoke_record(license: &mut License, guard: &mut LicenseGuard, signer: Pubkey) -> (r:
    Result<LicenseRevoked, LicenseError>)
    requires
        old(guard).beat_hash@ == old(license).beat_hash@,
    ensures
        ({
            &&& (old(license).issuer@ != signer@ ==> r == Err::<LicenseRevoked, LicenseError>(
                LicenseError::UnauthorizedRevoker,
            ) && *final(license) == *old(license) && *final(guard) == *old(guard))
            &&& (old(license).issuer@ == signer@ && old(license).revoked ==> r == Err::<
                LicenseRevoked,
                LicenseError,
            >(LicenseError::AlreadyRevoked) && *final(license) == *old(license) && *final(guard)
                == *old(guard))
            &&& (old(license).issuer@ == signer@ && !old(license).revoked ==> {
                &&& r == Ok::<LicenseRevoked, LicenseError>(
                    LicenseRevoked {
                        license: (LicenseId {
                            beat_hash: old(license).beat_hash,
                            licensee: old(license).licensee,
                        }),
                        revoked_by: signer,
                    },
                )
                &&& *final(license) == (License {
                    issuer: old(license).issuer,
                    licensee: old(license).licensee,
                    beat_mint: old(license).beat_mint,
                    beat_hash: old(license).beat_hash,
                    terms_cid: old(license).terms_cid,
                    license_type: old(license).license_type,
                    territory: old(license).territory,
                    valid_until: old(license).valid_until,
                    revoked: true,
                })
                &&& final(guard).beat_hash == old(guard).beat_hash
                &&& final(guard).exclusive_active == (old(guard).exclusive_active && old(
                    license,
                ).license_type != LicenseType::Exclusive)
            })
        }),
{
    if !pubkey_eq(&license.issuer, &signer) {
        return Err(LicenseError::UnauthorizedRevoker);
    }
    if license.revoked {
        return Err(LicenseError::AlreadyRevoked);
    }
    let ev = LicenseRevoked {
        license: derive_license_id(license.beat_hash, license.licensee),
        revoked_by: signer,
    };
    license.revoked = true;
    if license.license_type == LicenseType::Exclusive {
        guard.release();
    }
    Ok(ev)
}

} // verus!
