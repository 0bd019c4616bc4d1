use soundcloud_license::guard::LicenseGuard;
use soundcloud_license::record::{initialize_record, revoke_record};
use soundcloud_license::types::{derive_license_id, LicenseError, LicenseType, Pubkey};

fn pk(n: u8) -> Pubkey {
    Pubkey { bytes: [n; 32] }
}

fn hash(n: u8) -> [u8; 32] {
    [n; 32]
}

fn init(
    guard: &mut LicenseGuard,
    signer: u8,
    h: u8,
    licensee: u8,
    lt: LicenseType,
) -> Result<
    (soundcloud_license::license::License, soundcloud_license::registry::LicenseInitialized),
    LicenseError,
> {
    initialize_record(
        guard,
        pk(signer),
        hash(h),
        pk(licensee),
        pk(200),
        String::from("ipfs://t1"),
        lt,
        String::from("US"),
        2_000_000_000,
    )
}

#[test]
fn record_create_adopts_and_locks_guard() {
    let mut g = LicenseGuard::new();
    let (lic, ev) = init(&mut g, 1, 7, 10, LicenseType::Exclusive).unwrap();
    assert_eq!(g.beat_hash, hash(7));
    assert!(g.exclusive_active);
    assert_eq!(lic.issuer, pk(1));
    assert_eq!(lic.licensee, pk(10));
    assert_eq!(lic.beat_hash, hash(7));
    assert_eq!(lic.license_type, LicenseType::Exclusive);
    assert!(!lic.revoked);
    assert_eq!(ev.license, derive_license_id(hash(7), pk(10)));
    assert_eq!(ev.issuer, pk(1));
}

#[test]
fn record_create_against_foreign_guard_is_a_mismatch() {
    let mut g = LicenseGuard::new();
    init(&mut g, 1, 7, 10, LicenseType::NonExclusive).unwrap();
    let r = init(&mut g, 2, 8, 11, LicenseType::NonExclusive);
    assert_eq!(r.unwrap_err(), LicenseError::GuardMismatch);
    assert_eq!(g.beat_hash, hash(7));
    assert!(!g.exclusive_active);
}

#[test]
fn record_create_conflicts_on_locked_guard() {
    let mut g = LicenseGuard::new();
    init(&mut g, 1, 7, 10, LicenseType::Exclusive).unwrap();
    let r = init(&mut g, 2, 7, 11, LicenseType::Exclusive);
    assert_eq!(r.unwrap_err(), LicenseError::ExclusiveLicenseExists);
    assert!(g.exclusive_active);
    // A non-exclusive grant is still permitted and leaves the flag alone.
    init(&mut g, 2, 7, 11, LicenseType::NonExclusive).unwrap();
    assert!(g.exclusive_active);
}

#[test]
fn record_create_checks_field_bounds() {
    let mut g = LicenseGuard::new();
    let r = initialize_record(
        &mut g,
        pk(1),
        hash(7),
        pk(10),
        pk(200),
        "a".repeat(201),
        LicenseType::Exclusive,
        String::from("US"),
        2_000_000_000,
    );
    assert_eq!(r.unwrap_err(), LicenseError::FieldTooLong);
    // Nothing was acquired on failure.
    assert!(!g.exclusive_active);
    assert_eq!(g.beat_hash, [0u8; 32]);
}

#[test]
fn record_revoke_requires_issuer_and_releases_guard() {
    let mut g = LicenseGuard::new();
    let (mut lic, _) = init(&mut g, 1, 7, 10, LicenseType::Exclusive).unwrap();
    let r = revoke_record(&mut lic, &mut g, pk(2));
    assert_eq!(r.unwrap_err(), LicenseError::UnauthorizedRevoker);
    assert!(!lic.revoked);
    assert!(g.exclusive_active);
    let ev = revoke_record(&mut lic, &mut g, pk(1)).unwrap();
    assert!(lic.revoked);
    assert!(!g.exclusive_active);
    assert_eq!(ev.license, derive_license_id(hash(7), pk(10)));
    assert_eq!(ev.revoked_by, pk(1));
    let r2 = revoke_record(&mut lic, &mut g, pk(1));
    assert_eq!(r2.unwrap_err(), LicenseError::AlreadyRevoked);
}

#[test]
fn record_revoke_nonexclusive_leaves_guard_locked() {
    let mut g = LicenseGuard::new();
    init(&mut g, 1, 7, 10, LicenseType::Exclusive).unwrap();
    let (mut lic2, _) = init(&mut g, 2, 7, 11, LicenseType::NonExclusive).unwrap();
    revoke_record(&mut lic2, &mut g, pk(2)).unwrap();
    assert!(lic2.revoked);
    assert!(g.exclusive_active);
}
