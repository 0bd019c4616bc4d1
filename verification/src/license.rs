//! The license record, its well-formedness, and the count of non-revoked
//! exclusive licenses per asset that the exclusivity invariant speaks of.

use vstd::prelude::*;
use crate::types::{LicenseType, Pubkey, MAX_TERMS_CID_LEN, MAX_TERRITORY_LEN};

verus! {

/// One license record. Created once; afterwards mutated only by revocation,
/// a one-way flip of `revoked`. Never deleted.
#[derive(Debug)]
pub struct License {
    /// The identity that created the license; the only one allowed to revoke it.
    pub issuer: Pubkey,
    /// The identity the grant is scoped to.
    pub licensee: Pubkey,
    /// Opaque reference to the underlying asset record.
    pub beat_mint: Pubkey,
    /// 32-byte content hash of the licensed asset.
    pub beat_hash: [u8; 32],
    /// Opaque content identifier for the legal terms text.
    pub terms_cid: String,
    /// Whether the grant is exclusive for the asset.
    pub license_type: LicenseType,
    /// Free-form territory label.
    pub territory: String,
    /// Expiry timestamp in seconds; checked against the clock by the caller,
    /// never by the registry.
    pub valid_until: i64,
    /// One-way revocation flag, initially false.
    pub revoked: bool,
}

impl License {
    /// The record's string fields fit the space a stored record reserves.
    pub open spec fn wf(self) -> bool {
        self.terms_cid@.len() <= MAX_TERMS_CID_LEN && self.territory@.len() <= MAX_TERRITORY_LEN
    }
}

/// Holds when `l` counts against the exclusivity rule for asset `h`: it is a
/// non-revoked exclusive license for that asset.
pub open spec fn is_active_exclusive_for(l: License, h: Seq<u8>) -> bool {
    l.beat_hash@ == h && l.license_type == LicenseType::Exclusive && !l.revoked
}

/// The number of non-revoked exclusive licenses for asset `h` among `s`.
pub open spec fn active_exclusive_count(s: Seq<License>, h: Seq<u8>) -> nat
    decreases s.len(),
{
    if s.len() == 0 {
        0
    } else {
        active_exclusive_count(s.drop_last(), h) + (if is_active_exclusive_for(s.last(), h) {
            1nat
        } else {
            0nat
        })
    }
}

/// Appending a record adds its own contribution to the count and nothing else.
pub proof fn lemma_count_push(s: Seq<License>, h: Seq<u8>, l: License)
    ensures
        active_exclusive_count(s.push(l), h) == active_exclusive_count(s, h) + (
        if is_active_exclusive_for(l, h) {
            1nat
        } else {
            0nat
        }),
{
    assert(s.push(l).drop_last() =~= s);
    assert(s.push(l).last() == l);
}

/// Replacing the record at `i` exchanges its contribution to the count for
/// the new record's contribution.
pub proof fn lemma_count_update(s: Seq<License>, h: Seq<u8>, i: int, l: License)
    requires
        0 <= i < s.len(),
    ensures
        active_exclusive_count(s.update(i, l), h) + (if is_active_exclusive_for(s[i], h) {
            1nat
        } else {
            0nat
        }) == active_exclusive_count(s, h) + (if is_active_exclusive_for(l, h) {
            1nat
        } else {
            0nat
        }),
    decreases s.len(),
{
    let t = s.update(i, l);
    if i == s.len() - 1 {
        assert(t.drop_last() =~= s.drop_last());
        assert(t.last() == l);
    } else {
        assert(t.drop_last() =~= s.drop_last().update(i, l));
        assert(t.last() == s.last());
        lemma_count_update(s.drop_last(), h, i, l);
        assert(s.drop_last()[i] == s[i]);
    }
}

/// A sequence without a non-revoked exclusive license for `h` counts zero.
pub proof fn lemma_count_zero(s: Seq<License>, h: Seq<u8>)
    requires
        forall|i: int| 0 <= i < s.len() ==> !is_active_exclusive_for(#[trigger] s[i], h),
    ensures
        active_exclusive_count(s, h) == 0,
    decreases s.len(),
{
    if s.len() > 0 {
        assert forall|i: int| 0 <= i < s.drop_last().len() implies !is_active_exclusive_for(
            #[trigger] s.drop_last()[i],
            h,
        ) by {
            assert(s.drop_last()[i] == s[i]);
        }
        lemma_count_zero(s.drop_last(), h);
        assert(s.last() == s[s.len() - 1]);
    }
}

/// A non-revoked exclusive license at index `i` makes the count at least one.
pub proof fn lemma_count_member(s: Seq<License>, h: Seq<u8>, i: int)
    requires
        0 <= i < s.len(),
        is_active_exclusive_for(s[i], h),
    ensures
        active_exclusive_count(s, h) >= 1,
    decreases s.len(),
{
    if i < s.len() - 1 {
        assert(s.drop_last()[i] == s[i]);
        lemma_count_member(s.drop_last(), h, i);
    } else {
        assert(s.last() == s[i]);
    }
}

} // verus!
