use nestera::ledger::NesteraContract;

const NOW: u64 = 0;

fn setup_env() -> (NesteraContract, u64, u64, u64, u64) {
    let mut c = NesteraContract::new();
    let admin = 1;
    c.initialize(admin).unwrap();
    // lock plans need a rate tier for their exact duration
    c.set_lock_rate(admin, 30, 500).unwrap();
    c.set_lock_rate(admin, 60, 600).unwrap();
    c.set_lock_rate(admin, 90, 900).unwrap();
    (c, admin, 11, 12, 13)
}

#[test]
fn test_user_lifecycle() {
    let (mut c, _admin, user1, _user2, _user3) = setup_env();
    c.initialize_user(user1).unwrap();
    let user_data = c.get_user(user1).unwrap();
    assert_eq!(user_data.total_balance, 0);
    assert_eq!(user_data.savings_count, 0);
    assert!(c.user_exists(user1));
}

#[test]
#[should_panic]
fn test_duplicate_user_initialization_fails() {
    let (mut c, _admin, user1, _user2, _user3) = setup_env();
    c.initialize_user(user1).unwrap();
    c.initialize_user(user1).unwrap();
}

#[test]
#[should_panic]
fn test_query_non_existent_user() {
    let (c, _admin, user1, _user2, _user3) = setup_env();
    c.get_user(user1).unwrap();
}

#[test]
fn test_flexi_plan_full_flow() {
    let (mut c, _admin, user1, _user2, _user3) = setup_env();
    c.initialize_user(user1).unwrap();
    let deposit_amount = 1000i128;
    c.deposit_flexi(user1, deposit_amount, NOW).unwrap();
    let balance = c.get_flexi_balance(user1).unwrap();
    assert_eq!(balance, deposit_amount);
    let withdraw_amount = 400i128;
    c.withdraw_flexi(user1, withdraw_amount).unwrap();
    let balance = c.get_flexi_balance(user1).unwrap();
    assert_eq!(balance, deposit_amount - withdraw_amount);
    let user_data = c.get_user(user1).unwrap();
    assert_eq!(user_data.total_balance, deposit_amount - withdraw_amount);
}

#[test]
#[should_panic]
fn test_flexi_withdraw_insufficient_balance() {
    let (mut c, _admin, user1, _user2, _user3) = setup_env();
    c.initialize_user(user1).unwrap();
    c.deposit_flexi(user1, 500, NOW).unwrap();
    c.withdraw_flexi(user1, 1000).unwrap();
}

#[test]
#[should_panic]
fn test_flexi_invalid_zero_deposit() {
    let (mut c, _admin, user1, _user2, _user3) = setup_env();
    c.initialize_user(user1).unwrap();
    c.deposit_flexi(user1, 0, NOW).unwrap();
}

#[test]
#[should_panic]
fn test_flexi_invalid_negative_deposit() {
    let (mut c, _admin, user1, _user2, _user3) = setup_env();
    c.initialize_user(user1).unwrap();
    c.deposit_flexi(user1, -100, NOW).unwrap();
}

#[test]
fn test_goal_plan_full_flow() {
    let (mut c, _admin, user1, _user2, _user3) = setup_env();
    c.initialize_user(user1).unwrap();
    c.deposit_flexi(user1, 10000, NOW).unwrap();
    let target_amount = 5000i128;
    let initial_deposit = 1000i128;
    let goal_id = c
        .create_goal_save(user1, String::from("vacation"), target_amount, initial_deposit, NOW)
        .unwrap();
    let goal = c.get_goal_save_detail(goal_id).unwrap();
    assert_eq!(goal.target_amount, target_amount);
    assert_eq!(goal.current_amount, initial_deposit);
    assert!(!goal.is_completed);
    c.deposit_to_goal_save(user1, goal_id, 2000).unwrap();
    let goal = c.get_goal_save_detail(goal_id).unwrap();
    assert_eq!(goal.current_amount, 3000);
    c.deposit_to_goal_save(user1, goal_id, 2000).unwrap();
    let goal = c.get_goal_save_detail(goal_id).unwrap();
    assert_eq!(goal.current_amount, 5000);
    assert!(goal.is_completed);
    let withdrawn = c.withdraw_completed_goal_save(user1, goal_id).unwrap();
    assert_eq!(withdrawn, 5000);
    let goal = c.get_goal_save_detail(goal_id).unwrap();
    assert!(goal.is_withdrawn);
}

#[test]
fn test_goal_early_withdrawal_with_penalty() {
    let (mut c, admin, user1, _user2, _user3) = setup_env();
    c.set_early_break_fee_bps(admin, 500).unwrap();
    let treasury = 99;
    c.set_fee_recipient(admin, treasury).unwrap();
    c.initialize_user(user1).unwrap();
    c.deposit_flexi(user1, 10000, NOW).unwrap();
    let target_amount = 10000i128;
    let initial_deposit = 3000i128;
    let goal_id = c
        .create_goal_save(user1, String::from("house"), target_amount, initial_deposit, NOW)
        .unwrap();
    let returned = c.break_goal_save(user1, goal_id).unwrap();
    assert!(returned > 0);
    assert!(returned <= initial_deposit);
    let goal = c.get_goal_save_detail(goal_id).unwrap();
    assert!(goal.is_withdrawn);
}

#[test]
fn test_lock_save_full_flow() {
    let (mut c, _admin, user1, _user2, _user3) = setup_env();
    c.initialize_user(user1).unwrap();
    c.deposit_flexi(user1, 10000, NOW).unwrap();
    let lock_amount = 5000i128;
    let duration_days = 30u64;
    let lock_id = c.create_lock_save(user1, lock_amount, duration_days, NOW).unwrap();
    assert!(!c.check_matured_lock(lock_id, NOW).unwrap());
    let duration_seconds = duration_days * 86400;
    let later = NOW + duration_seconds + 1;
    assert!(c.check_matured_lock(lock_id, later).unwrap());
    let withdrawn = c.withdraw_lock_save(user1, lock_id, later).unwrap();
    assert!(withdrawn > 0);
    assert!(withdrawn >= lock_amount);
}

#[test]
#[should_panic]
fn test_lock_save_early_withdrawal_fails() {
    let (mut c, _admin, user1, _user2, _user3) = setup_env();
    c.initialize_user(user1).unwrap();
    c.deposit_flexi(user1, 5000, NOW).unwrap();
    let lock_id = c.create_lock_save(user1, 3000, 60, NOW).unwrap();
    c.withdraw_lock_save(user1, lock_id, NOW).unwrap();
}

#[test]
fn test_multiple_lock_saves() {
    let (mut c, _admin, user1, _user2, _user3) = setup_env();
    c.initialize_user(user1).unwrap();
    c.deposit_flexi(user1, 20000, NOW).unwrap();
    c.create_lock_save(user1, 5000, 30, NOW).unwrap();
    c.create_lock_save(user1, 3000, 60, NOW).unwrap();
    c.create_lock_save(user1, 2000, 90, NOW).unwrap();
    let user_locks = c.get_user_lock_saves(user1);
    assert_eq!(user_locks.len(), 3);
}

#[test]
fn test_group_save_full_flow() {
    let (mut c, _admin, user1, user2, user3) = setup_env();
    c.initialize_user(user1).unwrap();
    c.initialize_user(user2).unwrap();
    c.initialize_user(user3).unwrap();
    c.deposit_flexi(user1, 10000, NOW).unwrap();
    c.deposit_flexi(user2, 10000, NOW).unwrap();
    c.deposit_flexi(user3, 10000, NOW).unwrap();
    let group_id = c
        .create_group_save(
            user1,
            String::from("Team Savings"),
            String::from("Saving for team retreat"),
            String::from("travel"),
            9000,
            0,
            1000,
            true,
            NOW,
            NOW + 86400 * 30,
        )
        .unwrap();
    c.join_group_save(user2, group_id).unwrap();
    c.join_group_save(user3, group_id).unwrap();
    c.contribute_to_group_save(user1, group_id, 2000).unwrap();
    c.contribute_to_group_save(user2, group_id, 2000).unwrap();
    c.contribute_to_group_save(user3, group_id, 2000).unwrap();
    c.break_group_save(user3, group_id).unwrap();
    let balance = c.get_flexi_balance(user3).unwrap();
    assert_eq!(balance, 10000);
}

#[test]
#[should_panic]
fn test_group_save_non_member_cannot_contribute() {
    let (mut c, _admin, user1, user2, _user3) = setup_env();
    c.initialize_user(user1).unwrap();
    c.initialize_user(user2).unwrap();
    c.deposit_flexi(user1, 10000, NOW).unwrap();
    c.deposit_flexi(user2, 10000, NOW).unwrap();
    let group_id = c
        .create_group_save(
            user1,
            String::from("Exclusive Group"),
            String::from("Members only"),
            String::from("savings"),
            5000,
            0,
            500,
            false,
            NOW,
            NOW + 86400,
        )
        .unwrap();
    c.contribute_to_group_save(user2, group_id, 1000).unwrap();
}

#[test]
fn test_autosave_full_flow() {
    let (mut c, _admin, user1, _user2, _user3) = setup_env();
    c.initialize_user(user1).unwrap();
    c.deposit_flexi(user1, 50000, NOW).unwrap();
    let amount = 1000i128;
    let interval = 3600u64;
    let start_time = NOW + 100;
    let schedule_id = c.create_autosave(user1, amount, interval, start_time).unwrap();
    let schedule = c.get_autosave(schedule_id);
    assert!(schedule.is_some());
    let schedule = schedule.unwrap();
    assert_eq!(schedule.amount, amount);
    assert_eq!(schedule.interval_seconds, interval);
    assert!(schedule.is_active);
    c.execute_autosave(schedule_id, start_time + 1).unwrap();
    let schedule = c.get_autosave(schedule_id).unwrap();
    assert_eq!(schedule.next_execution_time, start_time + interval);
}

#[test]
#[should_panic]
fn test_autosave_early_execution_fails() {
    let (mut c, _admin, user1, _user2, _user3) = setup_env();
    c.initialize_user(user1).unwrap();
    c.deposit_flexi(user1, 10000, NOW).unwrap();
    let start_time = NOW + 1000;
    let schedule_id = c.create_autosave(user1, 500, 3600, start_time).unwrap();
    c.execute_autosave(schedule_id, NOW).unwrap();
}

#[test]
fn test_autosave_batch_execution() {
    let (mut c, _admin, user1, _user2, _user3) = setup_env();
    c.initialize_user(user1).unwrap();
    c.deposit_flexi(user1, 100000, NOW).unwrap();
    let current_time = NOW;
    let schedule1 = c.create_autosave(user1, 1000, 3600, current_time + 100).unwrap();
    let schedule2 = c.create_autosave(user1, 2000, 7200, current_time + 200).unwrap();
    let _schedule3 = c.create_autosave(user1, 500, 1800, current_time + 5000).unwrap();
    let later = current_time + 300;
    c.execute_autosave(schedule1, later).unwrap();
    c.execute_autosave(schedule2, later).unwrap();
    let sched1 = c.get_autosave(schedule1).unwrap();
    assert_eq!(sched1.next_execution_time, current_time + 100 + 3600);
}

#[test]
fn test_autosave_cancel() {
    let (mut c, _admin, user1, _user2, _user3) = setup_env();
    c.initialize_user(user1).unwrap();
    c.deposit_flexi(user1, 10000, NOW).unwrap();
    let schedule_id = c.create_autosave(user1, 1000, 3600, NOW).unwrap();
    c.cancel_autosave(user1, schedule_id).unwrap();
    let schedule = c.get_autosave(schedule_id).unwrap();
    assert!(!schedule.is_active);
}

#[test]
fn test_fee_configuration() {
    let (mut c, admin, _user1, _user2, _user3) = setup_env();
    let treasury = 99;
    c.set_fee_recipient(admin, treasury).unwrap();
    let recipient = c.get_fee_recipient();
    assert_eq!(recipient, Some(treasury));
    c.set_early_break_fee_bps(admin, 1000).unwrap();
    let fee = c.get_early_break_fee_bps();
    assert_eq!(fee, 1000);
}

#[test]
#[should_panic]
fn test_fee_configuration_invalid() {
    let (mut c, admin, _user1, _user2, _user3) = setup_env();
    c.set_early_break_fee_bps(admin, 15000).unwrap();
}

#[test]
fn test_pause_and_unpause() {
    let (mut c, admin, user1, _user2, _user3) = setup_env();
    c.initialize_user(user1).unwrap();
    c.deposit_flexi(user1, 10000, NOW).unwrap();
    c.pause(admin).unwrap();
    assert!(c.is_paused());
    c.unpause(admin).unwrap();
    assert!(!c.is_paused());
    c.deposit_flexi(user1, 1000, NOW).unwrap();
}

#[test]
#[should_panic]
fn test_operations_paused() {
    let (mut c, admin, user1, _user2, _user3) = setup_env();
    c.initialize_user(user1).unwrap();
    c.deposit_flexi(user1, 10000, NOW).unwrap();
    c.pause(admin).unwrap();
    c.deposit_flexi(user1, 1000, NOW).unwrap();
}

#[test]
#[should_panic]
fn test_non_admin_cannot_pause() {
    let (mut c, _admin, user1, _user2, _user3) = setup_env();
    c.pause(user1).unwrap();
}

#[test]
fn test_interest_rate_configuration() {
    let (mut c, admin, _user1, _user2, _user3) = setup_env();
    c.set_flexi_rate(admin, 300).unwrap();
    assert_eq!(c.get_flexi_rate(), 300);
    c.set_goal_rate(admin, 500).unwrap();
    assert_eq!(c.get_goal_rate(), 500);
    c.set_group_rate(admin, 400).unwrap();
    assert_eq!(c.get_group_rate(), 400);
    c.set_lock_rate(admin, 30, 600).unwrap();
    c.set_lock_rate(admin, 90, 900).unwrap();
}

#[test]
#[should_panic]
fn test_invalid_zero_amount() {
    let (mut c, _admin, user1, _user2, _user3) = setup_env();
    c.initialize_user(user1).unwrap();
    c.deposit_flexi(user1, 0, NOW).unwrap();
}

#[test]
#[should_panic]
fn test_invalid_negative_amount() {
    let (mut c, _admin, user1, _user2, _user3) = setup_env();
    c.initialize_user(user1).unwrap();
    c.deposit_flexi(user1, -500, NOW).unwrap();
}

#[test]
#[should_panic]
fn test_insufficient_balance_withdrawal() {
    let (mut c, _admin, user1, _user2, _user3) = setup_env();
    c.initialize_user(user1).unwrap();
    c.deposit_flexi(user1, 1000, NOW).unwrap();
    c.withdraw_flexi(user1, 2000).unwrap();
}

#[test]
#[should_panic]
fn test_operations_on_non_existent_user() {
    let (mut c, _admin, user1, _user2, _user3) = setup_env();
    c.deposit_flexi(user1, 1000, NOW).unwrap();
}

#[test]
#[should_panic]
fn test_autosave_invalid_interval() {
    let (mut c, _admin, user1, _user2, _user3) = setup_env();
    c.initialize_user(user1).unwrap();
    c.deposit_flexi(user1, 10000, NOW).unwrap();
    c.create_autosave(user1, 1000, 0, NOW).unwrap();
}

#[test]
fn test_multi_user_multi_plan_scenario() {
    let (mut c, _admin, user1, user2, user3) = setup_env();
    c.initialize_user(user1).unwrap();
    c.initialize_user(user2).unwrap();
    c.initialize_user(user3).unwrap();
    c.deposit_flexi(user1, 20000, NOW).unwrap();
    c.deposit_flexi(user2, 15000, NOW).unwrap();
    c.deposit_flexi(user3, 10000, NOW).unwrap();
    c.create_lock_save(user1, 5000, 30, NOW).unwrap();
    c.create_goal_save(user1, String::from("vacation"), 8000, 3000, NOW).unwrap();
    let _autosave1 = c.create_autosave(user2, 500, 3600, NOW).unwrap();
    let group_id = c
        .create_group_save(
            user3,
            String::from("Team Fund"),
            String::from("Collaborative savings"),
            String::from("general"),
            15000,
            0,
            1000,
            true,
            NOW,
            NOW + 86400 * 30,
        )
        .unwrap();
    c.join_group_save(user1, group_id).unwrap();
    c.join_group_save(user2, group_id).unwrap();
    c.contribute_to_group_save(user1, group_id, 5000).unwrap();
    c.contribute_to_group_save(user2, group_id, 5000).unwrap();
    c.contribute_to_group_save(user3, group_id, 5000).unwrap();
    let user_locks = c.get_user_lock_saves(user1);
    assert!(user_locks.len() > 0);
    let user_goals = c.get_user_goal_saves(user1);
    assert!(user_goals.len() > 0);
    let user_autosaves = c.get_user_autosaves(user2);
    assert!(user_autosaves.len() > 0);
}

#[test]
fn test_complete_user_journey() {
    let (mut c, _admin, user1, _user2, _user3) = setup_env();
    c.initialize_user(user1).unwrap();
    c.deposit_flexi(user1, 50000, NOW).unwrap();
    assert_eq!(c.get_flexi_balance(user1).unwrap(), 50000);
    let goal_id = c.create_goal_save(user1, String::from("house"), 20000, 5000, NOW).unwrap();
    let balance = c.get_flexi_balance(user1).unwrap();
    assert!(balance <= 50000, "Balance should decrease after goal creation");
    let _lock_id = c.create_lock_save(user1, 10000, 90, NOW).unwrap();
    let balance = c.get_flexi_balance(user1).unwrap();
    assert!(balance <= 50000, "Balance should be managed after lock creation");
    let autosave_id = c.create_autosave(user1, 1000, 86400, NOW).unwrap();
    c.deposit_to_goal_save(user1, goal_id, 10000).unwrap();
    let balance = c.get_flexi_balance(user1).unwrap();
    assert!(balance <= 50000, "Balance should decrease after goal deposit");
    c.execute_autosave(autosave_id, NOW).unwrap();
    assert_eq!(c.get_user_goal_saves(user1).len(), 1);
    assert_eq!(c.get_user_lock_saves(user1).len(), 1);
    assert_eq!(c.get_user_autosaves(user1).len(), 1);
    c.deposit_to_goal_save(user1, goal_id, 5000).unwrap();
    let goal = c.get_goal_save_detail(goal_id).unwrap();
    assert!(goal.is_completed);
    let withdrawn = c.withdraw_completed_goal_save(user1, goal_id).unwrap();
    assert_eq!(withdrawn, 20000);
}
