//! The plain values the registry works on: 32-byte identities and asset
//! hashes, the license kind, the error taxonomy, and the deterministic
//! license identifier.

use vstd::prelude::*;

verus! {

/// Capacity of a license's terms content identifier, in characters.
pub const MAX_TERMS_CID_LEN: usize = 200;

/// Capacity of a license's territory string, in characters.
pub const MAX_TERRITORY_LEN: usize = 50;

/// A 32-byte identity, as the hosting environment hands it to the registry
/// after verifying the caller's signature. The registry trusts it completely
/// and only ever compares identities for equality.
#[derive(Clone, Copy, Debug, PartialEq, Eq)]
pub struct Pubkey {
    pub bytes: [u8; 32],
}

impl View for Pubkey {
    type V = Seq<u8>;

    open spec fn view(&self) -> Seq<u8> {
        self.bytes@
    }
}

/// Compares two 32-byte values byte by byte.
pub fn bytes32_eq(a: &[u8; 32], b: &[u8; 32]) -> (r: bool)
    ensures
        r == (a@ == b@),
{
    let mut i: usize = 0;
    while i < 32
        invariant
            i <= 32,
            forall|k: int| 0 <= k < i ==> a@[k] == b@[k],
        decreases 32 - i,
    {
        if a[i] != b[i] {
            return false;
        }
        i += 1;
    }
    proof {
        assert(a@ =~= b@);
    }
    true
}

/// Holds when every byte of a value is zero. A guard record whose stored
/// asset hash is all zero has not adopted an asset identity yet.
pub open spec fn is_zero_bytes(s: Seq<u8>) -> bool {
    forall|i: int| 0 <= i < s.len() ==> s[i] == 0u8
}

/// Checks whether a 32-byte value is all zero.
pub fn bytes32_is_zero(a: &[u8; 32]) -> (r: bool)
    ensures
        r == is_zero_bytes(a@),
{
    let mut i: usize = 0;
    while i < 32
        invariant
            i <= 32,
            forall|k: int| 0 <= k < i ==> a@[k] == 0u8,
        decreases 32 - i,
    {
        if a[i] != 0 {
            return false;
        }
        i += 1;
    }
    true
}

/// Compares two identities for equality.
pub fn pubkey_eq(a: &Pubkey, b: &Pubkey) -> (r: bool)
    ensures
        r == (a@ == b@),
{
    bytes32_eq(&a.bytes, &b.bytes)
}

/// The kind of grant a license makes. While a non-revoked `Exclusive` license
/// exists for an asset, no further exclusive license may be created for it;
/// `NonExclusive` licenses are unrestricted in number.
#[derive(Clone, Copy, Debug, PartialEq, Eq, Structural)]
pub enum LicenseType {
    Exclusive,
    NonExclusive,
}

/// Everything a registry operation can fail with. A failing operation reports
/// the first failing check and changes no state.
#[derive(Clone, Copy, Debug, PartialEq, Eq, Structural)]
pub enum LicenseError {
    /// The caller of a revocation is not the license's recorded issuer.
    UnauthorizedRevoker,
    /// The license to revoke has already been revoked.
    AlreadyRevoked,
    /// A non-revoked exclusive license is already active for the asset.
    ExclusiveLicenseExists,
    /// A guard record's stored asset hash conflicts with the requested one.
    GuardMismatch,
    /// No license record exists under the given identifier.
    NotFound,
    /// The terms identifier or the territory exceeds its bounded capacity.
    FieldTooLong,
    /// A license record already exists under the derived identifier.
    LicenseAlreadyExists,
}

/// The deterministic identifier of a license record: the asset hash together
/// with the licensee the grant is scoped to. Creation and lookup share this
/// derivation, so a retried creation addresses the record it created before
/// rather than a fresh one.
#[derive(Clone, Copy, Debug, PartialEq, Eq)]
pub struct LicenseId {
    pub beat_hash: [u8; 32],
    pub licensee: Pubkey,
}

impl View for LicenseId {
    type V = (Seq<u8>, Seq<u8>);

    open spec fn view(&self) -> (Seq<u8>, Seq<u8>) {
        (self.beat_hash@, self.licensee@)
    }
}

/// Derives the identifier under which the license for `beat_hash`, scoped to
/// `licensee`, is stored.
pub fn derive_license_id(beat_hash: [u8; 32], licensee: Pubkey) -> (id: LicenseId)
    ensures
        id.beat_hash == beat_hash,
        id.licensee == licensee,
{
    LicenseId { beat_hash, licensee }
}

} // verus!
