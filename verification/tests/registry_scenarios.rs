use soundcloud_license::registry::{LicenseInitialized, Registry};
use soundcloud_license::types::{
    derive_license_id, LicenseError, LicenseId, LicenseType, Pubkey,
};

fn pk(n: u8) -> Pubkey {
    Pubkey { bytes: [n; 32] }
}

fn hash(n: u8) -> [u8; 32] {
    [n; 32]
}

fn id(h: u8, licensee: u8) -> LicenseId {
    derive_license_id(hash(h), pk(licensee))
}

fn create(
    reg: &mut Registry,
    signer: u8,
    h: u8,
    licensee: u8,
    lt: LicenseType,
) -> Result<LicenseInitialized, LicenseError> {
    reg.initialize(
        pk(signer),
        hash(h),
        pk(licensee),
        pk(200),
        String::from("ipfs://t1"),
        lt,
        String::from("US"),
        2_000_000_000,
    )
}

#[test]
fn scenario_exclusive_create_locks_guard() {
    let mut reg = Registry::new();
    let ev = create(&mut reg, 1, 7, 10, LicenseType::Exclusive).unwrap();
    assert!(reg.is_exclusive_active(&hash(7)));
    assert_eq!(ev.license, id(7, 10));
    assert_eq!(ev.issuer, pk(1));
    assert_eq!(ev.licensee, pk(10));
    assert_eq!(ev.license_type, LicenseType::Exclusive);
    let lic = reg.get_license(id(7, 10)).unwrap();
    assert_eq!(lic.issuer, pk(1));
    assert_eq!(lic.licensee, pk(10));
    assert_eq!(lic.beat_hash, hash(7));
    assert_eq!(lic.terms_cid, "ipfs://t1");
    assert_eq!(lic.territory, "US");
    assert_eq!(lic.valid_until, 2_000_000_000);
    assert!(!lic.revoked);
}

#[test]
fn scenario_second_exclusive_fails() {
    let mut reg = Registry::new();
    create(&mut reg, 1, 7, 10, LicenseType::Exclusive).unwrap();
    let r = create(&mut reg, 2, 7, 11, LicenseType::Exclusive);
    assert_eq!(r.unwrap_err(), LicenseError::ExclusiveLicenseExists);
    // Guard and records unchanged.
    assert!(reg.is_exclusive_active(&hash(7)));
    assert_eq!(reg.guard_count(), 1);
    assert_eq!(reg.license_count(), 1);
}

#[test]
fn scenario_nonexclusive_allowed_beside_exclusive() {
    let mut reg = Registry::new();
    create(&mut reg, 1, 7, 10, LicenseType::Exclusive).unwrap();
    create(&mut reg, 2, 7, 11, LicenseType::NonExclusive).unwrap();
    assert!(reg.is_exclusive_active(&hash(7)));
    assert_eq!(reg.license_count(), 2);
}

#[test]
fn scenario_revoke_frees_guard_for_new_exclusive() {
    let mut reg = Registry::new();
    create(&mut reg, 1, 7, 10, LicenseType::Exclusive).unwrap();
    let ev = reg.revoke(pk(1), id(7, 10)).unwrap();
    assert_eq!(ev.license, id(7, 10));
    assert_eq!(ev.revoked_by, pk(1));
    assert!(!reg.is_exclusive_active(&hash(7)));
    assert!(reg.get_license(id(7, 10)).unwrap().revoked);
    // The asset is free again for a new exclusive grant.
    create(&mut reg, 3, 7, 12, LicenseType::Exclusive).unwrap();
    assert!(reg.is_exclusive_active(&hash(7)));
}

#[test]
fn scenario_unauthorized_revoker_rejected() {
    let mut reg = Registry::new();
    create(&mut reg, 1, 7, 10, LicenseType::Exclusive).unwrap();
    let r = reg.revoke(pk(2), id(7, 10));
    assert_eq!(r.unwrap_err(), LicenseError::UnauthorizedRevoker);
    // The license is left unchanged; not even the licensee may revoke.
    assert!(!reg.get_license(id(7, 10)).unwrap().revoked);
    assert!(reg.is_exclusive_active(&hash(7)));
    let r2 = reg.revoke(pk(10), id(7, 10));
    assert_eq!(r2.unwrap_err(), LicenseError::UnauthorizedRevoker);
}

#[test]
fn scenario_double_revoke_rejected() {
    let mut reg = Registry::new();
    create(&mut reg, 1, 7, 10, LicenseType::Exclusive).unwrap();
    reg.revoke(pk(1), id(7, 10)).unwrap();
    let r = reg.revoke(pk(1), id(7, 10));
    assert_eq!(r.unwrap_err(), LicenseError::AlreadyRevoked);
    assert!(reg.get_license(id(7, 10)).unwrap().revoked);
}

#[test]
fn exclusive_race_exactly_one_winner() {
    let mut reg = Registry::new();
    let mut ok = 0;
    let mut conflicts = 0;
    for n in 0..5u8 {
        match create(&mut reg, n, 7, 100 + n, LicenseType::Exclusive) {
            Ok(_) => ok += 1,
            Err(e) => {
                assert_eq!(e, LicenseError::ExclusiveLicenseExists);
                conflicts += 1;
            }
        }
    }
    assert_eq!(ok, 1);
    assert_eq!(conflicts, 4);
    assert_eq!(reg.license_count(), 1);
    assert!(reg.is_exclusive_active(&hash(7)));
}

#[test]
fn exclusivity_invariant_concrete() {
    let mut reg = Registry::new();
    // One exclusive and one non-exclusive license for the same asset: the
    // count of non-revoked exclusive licenses is one, and the flag agrees.
    create(&mut reg, 1, 7, 10, LicenseType::Exclusive).unwrap();
    create(&mut reg, 2, 7, 11, LicenseType::NonExclusive).unwrap();
    let exclusive_active = [id(7, 10), id(7, 11)]
        .iter()
        .filter(|i| {
            let l = reg.get_license(**i).unwrap();
            l.license_type == LicenseType::Exclusive && !l.revoked
        })
        .count();
    assert_eq!(exclusive_active, 1);
    assert!(reg.is_exclusive_active(&hash(7)));
    // After revoking the exclusive one the count is zero, and the flag agrees.
    reg.revoke(pk(1), id(7, 10)).unwrap();
    let exclusive_active = [id(7, 10), id(7, 11)]
        .iter()
        .filter(|i| {
            let l = reg.get_license(**i).unwrap();
            l.license_type == LicenseType::Exclusive && !l.revoked
        })
        .count();
    assert_eq!(exclusive_active, 0);
    assert!(!reg.is_exclusive_active(&hash(7)));
}

#[test]
fn revocation_is_monotonic() {
    let mut reg = Registry::new();
    create(&mut reg, 1, 7, 10, LicenseType::Exclusive).unwrap();
    reg.revoke(pk(1), id(7, 10)).unwrap();
    assert!(reg.get_license(id(7, 10)).unwrap().revoked);
    // No later operation clears the flag.
    create(&mut reg, 2, 7, 11, LicenseType::Exclusive).unwrap();
    create(&mut reg, 3, 8, 12, LicenseType::NonExclusive).unwrap();
    let _ = reg.revoke(pk(9), id(7, 10));
    let _ = reg.revoke(pk(1), id(7, 10));
    assert!(reg.get_license(id(7, 10)).unwrap().revoked);
}

#[test]
fn revoking_nonexclusive_touches_no_guard() {
    let mut reg = Registry::new();
    create(&mut reg, 1, 7, 10, LicenseType::Exclusive).unwrap();
    create(&mut reg, 2, 7, 11, LicenseType::NonExclusive).unwrap();
    create(&mut reg, 3, 8, 12, LicenseType::NonExclusive).unwrap();
    reg.revoke(pk(2), id(7, 11)).unwrap();
    // The exclusive grant for asset 7 stays locked; asset 8 stays free.
    assert!(reg.is_exclusive_active(&hash(7)));
    assert!(!reg.is_exclusive_active(&hash(8)));
}

#[test]
fn assets_are_independent() {
    let mut reg = Registry::new();
    create(&mut reg, 1, 7, 10, LicenseType::Exclusive).unwrap();
    create(&mut reg, 1, 8, 10, LicenseType::Exclusive).unwrap();
    assert!(reg.is_exclusive_active(&hash(7)));
    assert!(reg.is_exclusive_active(&hash(8)));
    reg.revoke(pk(1), id(7, 10)).unwrap();
    assert!(!reg.is_exclusive_active(&hash(7)));
    assert!(reg.is_exclusive_active(&hash(8)));
    assert_eq!(reg.guard_count(), 2);
}
