//! The per-asset exclusivity guard: a singleton record that serializes
//! exclusivity claims, so that "at most one active exclusive license" is a
//! single check-and-set on one record instead of a scan over every license.

use vstd::prelude::*;
use crate::types::{bytes32_eq, bytes32_is_zero, is_zero_bytes, LicenseError};

verus! {

/// The guard record for one asset. The stored hash is adopted on first use
/// and immutable thereafter; `exclusive_active` alternates between free and
/// locked as exclusive licenses are created and revoked. Never deleted.
#[derive(Clone, Copy, Debug, PartialEq, Eq)]
pub struct LicenseGuard {
    /// The asset this guard governs; all zero until first use.
    pub beat_hash: [u8; 32],
    /// True exactly while a non-revoked exclusive license exists for the asset.
    pub exclusive_active: bool,
}

impl LicenseGuard {
    /// The record has not adopted an asset identity yet.
    pub open spec fn is_uninitialized(self) -> bool {
        is_zero_bytes(self.beat_hash@)
    }

    /// A fresh guard record, as storage hands it out before first use:
    /// all-zero asset hash, nothing active.
    pub fn new() -> (g: LicenseGuard)
        ensures
            g.is_uninitialized(),
            !g.exclusive_active,
    {
        LicenseGuard { beat_hash: [0u8; 32], exclusive_active: false }
    }

    /// Adopts the asset identity on first use; on every later use the stored
    /// identity must match the requested one, and a mismatch is refused
    /// without touching the record. Idempotent for a matching hash.
    pub fn ensure_initialized(&mut self, beat_hash: &[u8; 32]) -> (r: Result<(), LicenseError>)
        ensures
            old(self).beat_hash@ == beat_hash@
                ==> r == Ok::<(), LicenseError>(()) && *final(self) == *old(self),
            old(self).beat_hash@ != beat_hash@ && old(self).is_uninitialized()
                ==> r == Ok::<(), LicenseError>(())
                    && final(self).beat_hash == *beat_hash
                    && final(self).exclusive_active == old(self).exclusive_active,
            old(self).beat_hash@ != beat_hash@ && !old(self).is_uninitialized()
                ==> r == Err::<(), LicenseError>(LicenseError::GuardMismatch)
                    && *final(self) == *old(self),
    {
        if bytes32_eq(&self.beat_hash, beat_hash) {
            Ok(())
        } else if bytes32_is_zero(&self.beat_hash) {
            self.beat_hash = *beat_hash;
            Ok(())
        } else {
            Err(LicenseError::GuardMismatch)
        }
    }

    /// The single atomic check-and-set on which exclusivity rests: succeeds
    /// and locks the guard only when no exclusive license is active.
    pub fn acquire_exclusive(&mut self) -> (r: Result<(), LicenseError>)
        ensures
            old(self).exclusive_active
                ==> r == Err::<(), LicenseError>(LicenseError::ExclusiveLicenseExists)
                    && *final(self) == *old(self),
            !old(self).exclusive_active
                ==> r == Ok::<(), LicenseError>(())
                    && final(self).exclusive_active
                    && final(self).beat_hash == old(self).beat_hash,
    {
        if self.exclusive_active {
            Err(LicenseError::ExclusiveLicenseExists)
        } else {
            self.exclusive_active = true;
            Ok(())
        }
    }

    /// Frees the guard unconditionally; releasing an already-free guard is a
    /// no-op, not an error.
    pub fn release(&mut self)
        ensures
            !final(self).exclusive_active,
            final(self).beat_hash == old(self).beat_hash,
    {
        self.exclusive_active = false;
    }
}

} // verus!
