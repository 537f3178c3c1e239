use duopow::address::Address;
use duopow::reconcile::{
    check, check_handle, first_user, register_or_update, resolve_linked, update_rewards, ChainWrite,
    unregister, OnchainRecord, ReconcileError, Snapshot, Uint256, UserProfile,
};

fn profile(id: u64, username: &str, bio: &str) -> UserProfile {
    UserProfile { id, username: username.to_string(), bio: bio.to_string() }
}

fn ones() -> Address {
    Address { bytes: [0x11u8; 20] }
}

fn twos() -> Address {
    Address { bytes: [0x22u8; 20] }
}

#[test]
fn alice_check_and_update() {
    let alice = profile(42, "alice", "hi 0x1111111111111111111111111111111111111111");
    let (id, address) = resolve_linked(first_user(vec![alice])).unwrap();
    assert_eq!(id, 42);
    assert_eq!(address, ones());
    let onchain = OnchainRecord { address: ones(), xp_reported: Uint256::from_u64(300) };

    let report = check(address, 500, &onchain);
    assert!(report.addresses_match);
    assert_eq!(report.mintable, 200);
    assert_eq!(report.contract_address, ones());
    assert_eq!(report.profile_address, address);

    let update = update_rewards(id, 500, &onchain.xp_reported);
    assert_eq!(update.write, Some(ChainWrite::ReportXp { id: 42, total: 500 }));
    assert_eq!(update.minted, 200);
}

#[test]
fn check_reports_changed_address_and_floors_delta() {
    let onchain = OnchainRecord { address: twos(), xp_reported: Uint256::from_u64(900) };
    let report = check(ones(), 500, &onchain);
    assert!(!report.addresses_match);
    assert_eq!(report.mintable, 0);
    let huge = OnchainRecord { address: ones(), xp_reported: Uint256 { limbs: [0, 0, 0, 1] } };
    assert_eq!(check(ones(), u64::MAX, &huge).mintable, 0);
}

#[test]
fn no_reward_when_nothing_earned() {
    for (x, r) in [(300u64, 300u64), (100, 300), (0, 0), (0, u64::MAX)] {
        let update = update_rewards(7, x, &Uint256::from_u64(r));
        assert_eq!(update.write, None);
        assert_eq!(update.minted, 0);
    }
    let beyond = Uint256 { limbs: [0, 1, 0, 0] };
    let update = update_rewards(7, u64::MAX, &beyond);
    assert_eq!(update.write, None);
    assert_eq!(update.minted, 0);
}

#[test]
fn reward_reports_new_total_and_mints_difference() {
    let update = update_rewards(7, 301, &Uint256::from_u64(300));
    assert_eq!(update.write, Some(ChainWrite::ReportXp { id: 7, total: 301 }));
    assert_eq!(update.minted, 1);
    let update = update_rewards(9, u64::MAX, &Uint256::from_u64(0));
    assert_eq!(update.write, Some(ChainWrite::ReportXp { id: 9, total: u64::MAX }));
    assert_eq!(update.minted, u64::MAX);
}

#[test]
fn registers_unknown_id() {
    let zero = OnchainRecord { address: Address { bytes: [0u8; 20] }, xp_reported: Uint256::from_u64(0) };
    assert_eq!(
        register_or_update(42, ones(), 500, &zero),
        Some(ChainWrite::Register { id: 42, address: ones(), xp: 500 })
    );
}

#[test]
fn updates_changed_address() {
    let onchain = OnchainRecord { address: twos(), xp_reported: Uint256::from_u64(10) };
    assert_eq!(
        register_or_update(42, ones(), 500, &onchain),
        Some(ChainWrite::UpdateAddress { id: 42, address: ones() })
    );
}

#[test]
fn already_registered_writes_nothing() {
    let onchain = OnchainRecord { address: ones(), xp_reported: Uint256::from_u64(10) };
    assert_eq!(register_or_update(42, ones(), 500, &onchain), None);
}

#[test]
fn resolve_reports_missing_user_and_address() {
    assert_eq!(resolve_linked(None), Err(ReconcileError::UserNotFound));
    assert_eq!(
        resolve_linked(Some(profile(1, "bob", "no address here"))),
        Err(ReconcileError::NoAddressLinked)
    );
}

#[test]
fn first_user_takes_first() {
    assert!(first_user(Vec::new()).is_none());
    let users = vec![profile(1, "a", ""), profile(2, "b", "")];
    assert_eq!(first_user(users).unwrap().id, 1);
}

#[test]
fn uint256_to_u64() {
    assert_eq!(Uint256::from_u64(5).to_u64(), Some(5));
    assert_eq!(Uint256 { limbs: [5, 0, 0, 1] }.to_u64(), None);
    assert_eq!(Uint256 { limbs: [0, 0, 1, 0] }.to_u64(), None);
}

#[test]
fn unregister_needs_only_the_id() {
    assert_eq!(
        unregister(Some(profile(42, "alice", "no address here"))),
        Ok(ChainWrite::Unregister { id: 42 })
    );
    assert_eq!(unregister(None), Err(ReconcileError::UserNotFound));
}

#[test]
fn check_handle_reports_or_fails() {
    let onchain = OnchainRecord { address: ones(), xp_reported: Uint256::from_u64(300) };
    let alice = profile(42, "alice", "hi 0x1111111111111111111111111111111111111111");
    let report = check_handle(Some(Snapshot { profile: alice, total_xp: 500, onchain })).unwrap();
    assert!(report.addresses_match);
    assert_eq!(report.mintable, 200);
    assert_eq!(report.profile_address, ones());
    let bob = profile(7, "bob", "no address");
    assert_eq!(
        check_handle(Some(Snapshot { profile: bob, total_xp: 1, onchain })).unwrap_err(),
        ReconcileError::NoAddressLinked
    );
    assert_eq!(check_handle(None).unwrap_err(), ReconcileError::UserNotFound);
}
