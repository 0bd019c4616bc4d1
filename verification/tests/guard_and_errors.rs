use soundcloud_license::guard::LicenseGuard;
use soundcloud_license::registry::Registry;
use soundcloud_license::types::{
    derive_license_id, LicenseError, LicenseType, Pubkey, MAX_TERMS_CID_LEN, MAX_TERRITORY_LEN,
};

fn pk(n: u8) -> Pubkey {
    Pubkey { bytes: [n; 32] }
}

fn hash(n: u8) -> [u8; 32] {
    [n; 32]
}

fn create_with_strings(
    reg: &mut Registry,
    terms: String,
    territory: String,
) -> Result<(), LicenseError> {
    reg.initialize(
        pk(1),
        hash(7),
        pk(10),
        pk(200),
        terms,
        LicenseType::NonExclusive,
        territory,
        2_000_000_000,
    )
    .map(|_| ())
}

#[test]
fn guard_adopts_identity_once() {
    let mut g = LicenseGuard::new();
    assert_eq!(g.beat_hash, [0u8; 32]);
    assert!(!g.exclusive_active);
    g.ensure_initialized(&hash(7)).unwrap();
    assert_eq!(g.beat_hash, hash(7));
    // Idempotent for the matching hash.
    g.ensure_initialized(&hash(7)).unwrap();
    assert_eq!(g.beat_hash, hash(7));
}

#[test]
fn guard_mismatch_rejected_without_change() {
    let mut g = LicenseGuard::new();
    g.ensure_initialized(&hash(7)).unwrap();
    g.acquire_exclusive().unwrap();
    let r = g.ensure_initialized(&hash(8));
    assert_eq!(r.unwrap_err(), LicenseError::GuardMismatch);
    assert_eq!(g.beat_hash, hash(7));
    assert!(g.exclusive_active);
}

#[test]
fn guard_acquire_is_a_check_and_set() {
    let mut g = LicenseGuard::new();
    g.ensure_initialized(&hash(7)).unwrap();
    g.acquire_exclusive().unwrap();
    assert!(g.exclusive_active);
    let r = g.acquire_exclusive();
    assert_eq!(r.unwrap_err(), LicenseError::ExclusiveLicenseExists);
    assert!(g.exclusive_active);
}

#[test]
fn guard_release_is_idempotent() {
    let mut g = LicenseGuard::new();
    g.ensure_initialized(&hash(7)).unwrap();
    g.acquire_exclusive().unwrap();
    g.release();
    assert!(!g.exclusive_active);
    g.release();
    assert!(!g.exclusive_active);
    g.acquire_exclusive().unwrap();
    assert!(g.exclusive_active);
}

#[test]
fn revoke_unknown_license_is_not_found() {
    let mut reg = Registry::new();
    let r = reg.revoke(pk(1), derive_license_id(hash(7), pk(10)));
    assert_eq!(r.unwrap_err(), LicenseError::NotFound);
}

#[test]
fn terms_cid_over_capacity_rejected() {
    let mut reg = Registry::new();
    let r = create_with_strings(&mut reg, "a".repeat(MAX_TERMS_CID_LEN + 1), String::from("US"));
    assert_eq!(r.unwrap_err(), LicenseError::FieldTooLong);
    assert_eq!(reg.license_count(), 0);
}

#[test]
fn territory_over_capacity_rejected() {
    let mut reg = Registry::new();
    let r = create_with_strings(&mut reg, String::from("ipfs://t1"), "b".repeat(MAX_TERRITORY_LEN + 1));
    assert_eq!(r.unwrap_err(), LicenseError::FieldTooLong);
    assert_eq!(reg.license_count(), 0);
}

#[test]
fn fields_at_capacity_accepted() {
    let mut reg = Registry::new();
    create_with_strings(&mut reg, "a".repeat(MAX_TERMS_CID_LEN), "b".repeat(MAX_TERRITORY_LEN))
        .unwrap();
    assert_eq!(reg.license_count(), 1);
}

#[test]
fn duplicate_identifier_rejected() {
    let mut reg = Registry::new();
    let mut go = |signer: u8| {
        reg.initialize(
            pk(signer),
            hash(7),
            pk(10),
            pk(200),
            String::from("ipfs://t1"),
            LicenseType::NonExclusive,
            String::from("US"),
            2_000_000_000,
        )
    };
    go(1).unwrap();
    // The same (asset, licensee) pair addresses the record that exists,
    // whoever retries the creation.
    assert_eq!(go(1).unwrap_err(), LicenseError::LicenseAlreadyExists);
    assert_eq!(go(2).unwrap_err(), LicenseError::LicenseAlreadyExists);
    assert_eq!(reg.license_count(), 1);
}

#[test]
fn license_id_derivation_is_deterministic() {
    let a = derive_license_id(hash(7), pk(10));
    let b = derive_license_id(hash(7), pk(10));
    assert_eq!(a, b);
    let c = derive_license_id(hash(7), pk(11));
    assert_ne!(a, c);
    assert_eq!(a.beat_hash, hash(7));
    assert_eq!(a.licensee, pk(10));
}

#[test]
fn guard_exists_tracks_first_use() {
    let mut reg = Registry::new();
    assert!(!reg.guard_exists(&hash(7)));
    create_with_strings(&mut reg, String::from("ipfs://t1"), String::from("US")).unwrap();
    assert!(reg.guard_exists(&hash(7)));
    // A non-exclusive creation leaves the guard free.
    assert!(!reg.is_exclusive_active(&hash(7)));
    // Guards persist; they are never deleted.
    reg.revoke(pk(1), derive_license_id(hash(7), pk(10))).unwrap();
    assert!(reg.guard_exists(&hash(7)));
}

#[test]
fn all_zero_asset_hash_is_an_ordinary_asset() {
    let mut reg = Registry::new();
    reg.initialize(
        pk(1),
        [0u8; 32],
        pk(10),
        pk(200),
        String::from("ipfs://t1"),
        LicenseType::Exclusive,
        String::from("US"),
        2_000_000_000,
    )
    .unwrap();
    assert!(reg.is_exclusive_active(&[0u8; 32]));
    let r = reg.initialize(
        pk(2),
        [0u8; 32],
        pk(11),
        pk(200),
        String::from("ipfs://t1"),
        LicenseType::Exclusive,
        String::from("US"),
        2_000_000_000,
    );
    assert_eq!(r.unwrap_err(), LicenseError::ExclusiveLicenseExists);
}
