use nestera::errors::SavingsError;
use nestera::ledger::NesteraContract;

fn setup() -> (NesteraContract, u64) {
    let mut c = NesteraContract::new();
    let admin = 1;
    let _ = c.initialize(admin);
    (c, admin)
}

#[test]
fn non_admin_cannot_pause_or_unpause() {
    let (mut c, _admin) = setup();
    let non_admin = 2;
    match c.pause(non_admin) {
        Err(e) => assert_eq!(e, SavingsError::Unauthorized),
        _ => panic!("Expected Unauthorized error"),
    }
    assert_eq!(c.unpause(non_admin), Err(SavingsError::Unauthorized));
}

#[test]
fn paused_blocks_write_paths() {
    let (mut c, admin) = setup();
    let user = 2;
    assert!(c.pause(admin).is_ok());
    match c.initialize_user(user) {
        Err(e) => assert_eq!(e, SavingsError::ContractPaused),
        _ => panic!("Expected ContractPaused"),
    }
    match c.deposit_flexi(user, 100, 0) {
        Err(e) => assert_eq!(e, SavingsError::ContractPaused),
        _ => panic!("Expected ContractPaused"),
    }
    match c.withdraw_flexi(user, 5) {
        Err(e) => assert_eq!(e, SavingsError::ContractPaused),
        _ => panic!("Expected ContractPaused"),
    }
}

#[test]
fn admin_can_set_early_break_fee_and_recipient() {
    let (mut c, admin) = setup();
    let treasury = 3;
    c.set_fee_recipient(admin, treasury).unwrap();
    assert_eq!(c.get_fee_recipient().unwrap(), treasury);
    c.set_early_break_fee_bps(admin, 500).unwrap();
    assert_eq!(c.get_early_break_fee_bps(), 500);
    let result = c.set_early_break_fee_bps(admin, 10_001);
    match result {
        Err(e) => assert_eq!(e, SavingsError::InvalidFeeBps),
        _ => panic!("Expected InvalidFeeBps error, got {:?}", result),
    }
}
