use ink::primitives::AccountId;
use syndeo::account::{all_distinct, contains_account, note_account, position_of};
use syndeo::errors::ContractError;
use syndeo::events::{AdminChanged, Award, MemberDeleted, NewMember, RewardGranted};
use syndeo::ledger::{check_tracks, RewardsSummary, Syndeo, DEFAULT_MAX_POINTS_PER_SENDER};
use syndeo::points::PointsMap;
use syndeo::share::reward_share;
use syndeo::tally::sum_points;

fn account(byte: u8) -> AccountId {
    AccountId::from([byte; 32])
}

/// A ledger of account 1 with members 1, 2 and 3.
fn three_members(cap: Option<u64>) -> Syndeo {
    let mut ledger = Syndeo::new(account(1), cap);
    assert_eq!(ledger.add_member(account(1), account(2)), Ok(NewMember { member: account(2) }));
    assert_eq!(ledger.add_member(account(1), account(3)), Ok(NewMember { member: account(3) }));
    ledger
}

fn sender_points(ledger: &Syndeo) -> Vec<Option<u64>> {
    (1u8..=6).map(|b| ledger.points_by_sender.get(&account(b))).collect()
}

fn recipient_points(ledger: &Syndeo) -> Vec<Option<u64>> {
    (1u8..=6).map(|b| ledger.points_by_recipient.get(&account(b))).collect()
}

/// Everything the ledger holds, for the accounts 1 to 6.
fn snapshot(
    ledger: &Syndeo,
) -> (AccountId, Vec<AccountId>, Vec<Option<u64>>, Vec<AccountId>, Vec<Option<u64>>, Vec<AccountId>, u64, u64)
{
    (
        ledger.admin,
        ledger.members.clone(),
        sender_points(ledger),
        ledger.senders.clone(),
        recipient_points(ledger),
        ledger.recipients.clone(),
        ledger.total_points,
        ledger.max_points_per_sender,
    )
}

#[test]
fn accounts_that_differ_in_one_byte_are_told_apart() {
    let mut bytes = [7u8; 32];
    let first = AccountId::from(bytes);
    bytes[31] = 8;
    let second = AccountId::from(bytes);
    let ledger = Syndeo::new(first, None);
    assert!(ledger.is_member(&first));
    assert!(!ledger.is_member(&second));
    assert_eq!(ledger.check_admin(&second), Err(ContractError::AdminRequired));
}

#[test]
fn position_of_finds_the_first_occurrence() {
    let accounts = vec![account(4), account(5), account(4), account(6)];
    assert_eq!(position_of(&accounts, &account(4)), Some(0));
    assert_eq!(position_of(&accounts, &account(6)), Some(3));
    assert_eq!(position_of(&accounts, &account(9)), None);
    assert_eq!(position_of(&Vec::new(), &account(4)), None);
    assert!(contains_account(&accounts, &account(5)));
    assert!(!contains_account(&accounts, &account(1)));
}

#[test]
fn note_account_appends_only_new_accounts() {
    let mut accounts = vec![account(1)];
    note_account(&mut accounts, account(2));
    assert_eq!(accounts, vec![account(1), account(2)]);
    note_account(&mut accounts, account(1));
    assert_eq!(accounts, vec![account(1), account(2)]);
}

#[test]
fn all_distinct_sees_a_repetition() {
    assert!(all_distinct(&Vec::new()));
    assert!(all_distinct(&vec![account(1), account(2), account(3)]));
    assert!(!all_distinct(&vec![account(1), account(2), account(1)]));
    assert!(!all_distinct(&vec![account(2), account(2)]));
}

#[test]
fn points_map_holds_one_counter_per_account() {
    let mut map = PointsMap::new();
    assert_eq!(map.get(&account(1)), None);
    map.insert(account(1), 4);
    map.insert(account(2), 0);
    assert_eq!(map.get(&account(1)), Some(4));
    assert_eq!(map.get(&account(2)), Some(0));
    map.insert(account(1), 9);
    assert_eq!(map.get(&account(1)), Some(9));
    assert_eq!(map.accounts(), vec![account(1), account(2)]);
    map.remove(&account(1));
    assert_eq!(map.get(&account(1)), None);
    assert_eq!(map.get(&account(2)), Some(0));
    map.remove(&account(3));
    assert_eq!(map.accounts(), vec![account(2)]);
}

#[test]
fn sum_points_counts_absent_accounts_as_zero() {
    let mut map = PointsMap::new();
    map.insert(account(1), u64::MAX);
    map.insert(account(2), u64::MAX);
    map.insert(account(3), 5);
    assert_eq!(sum_points(&Vec::new(), &map), 0);
    assert_eq!(
        sum_points(&vec![account(1), account(2), account(4)], &map),
        2 * (u64::MAX as u128)
    );
    assert_eq!(sum_points(&vec![account(3), account(3)], &map), 10);
}

#[test]
fn check_tracks_wants_list_and_counters_to_agree() {
    let mut map = PointsMap::new();
    map.insert(account(1), 2);
    map.insert(account(2), 3);
    assert!(check_tracks(&vec![account(2), account(1)], &map));
    assert!(!check_tracks(&vec![account(1)], &map));
    assert!(!check_tracks(&vec![account(1), account(2), account(3)], &map));
    assert!(!check_tracks(&vec![account(1), account(2), account(2)], &map));
    map.insert(account(2), 0);
    assert!(!check_tracks(&vec![account(1), account(2)], &map));
    assert!(check_tracks(&Vec::new(), &PointsMap::new()));
}

#[test]
fn reward_share_rounds_down() {
    assert_eq!(reward_share(5, 30_000_000_000_000, 15), 10_000_000_000_000);
    assert_eq!(reward_share(10, 30_000_000_000_000, 15), 20_000_000_000_000);
    assert_eq!(reward_share(2, 10, 3), 6);
    assert_eq!(reward_share(1, 10, 3), 3);
    assert_eq!(reward_share(0, 10, 3), 0);
    assert_eq!(reward_share(3, 10, 3), 10);
    assert_eq!(reward_share(1, 2, 3), 0);
}

#[test]
fn reward_share_is_exact_where_the_product_passes_128_bits() {
    assert_eq!(reward_share(u64::MAX, u128::MAX, u64::MAX), u128::MAX);
    assert_eq!(reward_share(1, u128::MAX, 1), u128::MAX);
    // floor(2 * (2^128 - 1) / 3) = 226854911280625642308916404954512140970
    assert_eq!(
        reward_share(2, u128::MAX, 3),
        226_854_911_280_625_642_308_916_404_954_512_140_970
    );
    // floor((2^64 - 2) * (2^128 - 1) / (2^64 - 1)) = 2^128 - 2^64 - 2
    assert_eq!(
        reward_share(u64::MAX - 1, u128::MAX, u64::MAX),
        u128::MAX - (1u128 << 64) - 1
    );
}

#[test]
fn new_ledger_has_its_creator_as_admin_and_only_member() {
    let ledger = Syndeo::new(account(1), None);
    assert_eq!(ledger.admin, account(1));
    assert_eq!(ledger.members, vec![account(1)]);
    assert!(ledger.senders.is_empty());
    assert!(ledger.recipients.is_empty());
    assert_eq!(ledger.total_points, 0);
    assert_eq!(ledger.max_points_per_sender, 10);
    assert_eq!(DEFAULT_MAX_POINTS_PER_SENDER, 10);
    assert_eq!(ledger.get_max_points_per_sender(), 10);
    assert!(ledger.is_well_formed());
    assert_eq!(Syndeo::new(account(1), Some(0)).get_max_points_per_sender(), 0);
}

#[test]
fn add_member_is_for_the_admin_only() {
    let mut ledger = Syndeo::new(account(1), None);
    let before = snapshot(&ledger);
    assert_eq!(ledger.add_member(account(2), account(3)), Err(ContractError::AdminRequired));
    assert_eq!(ledger.add_member(account(2), account(1)), Err(ContractError::AdminRequired));
    assert_eq!(snapshot(&ledger), before);
}

#[test]
fn adding_a_member_twice_changes_nothing() {
    let mut ledger = three_members(None);
    let before = snapshot(&ledger);
    assert_eq!(
        ledger.add_member(account(1), account(3)),
        Err(ContractError::MemberAlreadyExists)
    );
    assert_eq!(snapshot(&ledger), before);
    assert_eq!(ledger.members, vec![account(1), account(2), account(3)]);
}

#[test]
fn remove_member_keeps_the_order_of_the_others() {
    let mut ledger = three_members(None);
    assert_eq!(
        ledger.remove_member(account(1), account(2)),
        Ok(MemberDeleted { member: account(2) })
    );
    assert_eq!(ledger.members, vec![account(1), account(3)]);
    assert!(!ledger.is_member(&account(2)));
    assert!(ledger.is_well_formed());
}

#[test]
fn removing_a_stranger_changes_nothing() {
    let mut ledger = three_members(None);
    let before = snapshot(&ledger);
    assert_eq!(
        ledger.remove_member(account(1), account(4)),
        Err(ContractError::MemberDoesNotExist)
    );
    assert_eq!(snapshot(&ledger), before);
    assert_eq!(
        ledger.remove_member(account(2), account(3)),
        Err(ContractError::AdminRequired)
    );
    assert_eq!(snapshot(&ledger), before);
}

#[test]
fn the_admin_can_leave_the_members_and_still_administer() {
    let mut ledger = three_members(None);
    assert_eq!(
        ledger.remove_member(account(1), account(1)),
        Ok(MemberDeleted { member: account(1) })
    );
    assert_eq!(ledger.admin, account(1));
    assert_eq!(ledger.members, vec![account(2), account(3)]);
    assert_eq!(ledger.award(account(1), account(2), 1), Err(ContractError::SenderIsNotMember));
    assert_eq!(ledger.add_member(account(1), account(4)), Ok(NewMember { member: account(4) }));
}

#[test]
fn set_admin_enrols_a_new_admin_first() {
    let mut ledger = three_members(None);
    assert_eq!(
        ledger.set_admin(account(1), account(5)),
        Ok((Some(NewMember { member: account(5) }), AdminChanged { admin: account(5) }))
    );
    assert_eq!(ledger.admin, account(5));
    assert_eq!(ledger.members, vec![account(1), account(2), account(3), account(5)]);
    assert_eq!(ledger.check_admin(&account(1)), Err(ContractError::AdminRequired));
    assert_eq!(ledger.check_admin(&account(5)), Ok(()));
}

#[test]
fn set_admin_to_a_member_enrols_nobody() {
    let mut ledger = three_members(None);
    assert_eq!(
        ledger.set_admin(account(1), account(3)),
        Ok((None, AdminChanged { admin: account(3) }))
    );
    assert_eq!(ledger.admin, account(3));
    assert_eq!(ledger.members, vec![account(1), account(2), account(3)]);
}

#[test]
fn set_admin_is_for_the_admin_only() {
    let mut ledger = three_members(None);
    let before = snapshot(&ledger);
    assert_eq!(ledger.set_admin(account(2), account(2)), Err(ContractError::AdminRequired));
    assert_eq!(ledger.set_admin(account(4), account(5)), Err(ContractError::AdminRequired));
    assert_eq!(snapshot(&ledger), before);
}

#[test]
fn the_cap_can_be_set_to_zero_but_not_replaced_once_zero() {
    let mut ledger = three_members(Some(5));
    assert_eq!(ledger.set_max_points_per_sender(account(1), 7), Ok(()));
    assert_eq!(ledger.get_max_points_per_sender(), 7);
    assert_eq!(ledger.set_max_points_per_sender(account(1), 0), Ok(()));
    assert_eq!(ledger.get_max_points_per_sender(), 0);
    assert_eq!(
        ledger.award(account(1), account(2), 1),
        Err(ContractError::MaxPointsPerSenderExceeded)
    );
    assert_eq!(
        ledger.set_max_points_per_sender(account(1), 9),
        Err(ContractError::MaxPointsPerSenderCannotBeZero)
    );
    assert_eq!(ledger.get_max_points_per_sender(), 0);
}

#[test]
fn set_max_points_per_sender_is_for_the_admin_only() {
    let mut ledger = three_members(Some(0));
    assert_eq!(
        ledger.set_max_points_per_sender(account(2), 9),
        Err(ContractError::AdminRequired)
    );
    assert_eq!(ledger.get_max_points_per_sender(), 0);
}

#[test]
fn validate_award_inputs_looks_at_the_amount_first() {
    let ledger = three_members(None);
    assert_eq!(
        ledger.validate_award_inputs(account(8), account(8), 0),
        Err(ContractError::AwardPointsMustBeGreaterThanZero)
    );
    assert_eq!(
        ledger.validate_award_inputs(account(8), account(8), 1),
        Err(ContractError::CannotAwardYourself)
    );
    assert_eq!(
        ledger.validate_award_inputs(account(8), account(9), 1),
        Err(ContractError::SenderIsNotMember)
    );
    assert_eq!(
        ledger.validate_award_inputs(account(2), account(9), 1),
        Err(ContractError::RecipientIsNotMember)
    );
    assert_eq!(ledger.validate_award_inputs(account(2), account(3), 1), Ok(()));
}

#[test]
fn check_valid_member_names_the_sender_first() {
    let ledger = three_members(None);
    assert_eq!(
        ledger.check_valid_member(&account(8), &account(9)),
        Err(ContractError::SenderIsNotMember)
    );
    assert_eq!(
        ledger.check_valid_member(&account(1), &account(9)),
        Err(ContractError::RecipientIsNotMember)
    );
    assert_eq!(ledger.check_valid_member(&account(3), &account(1)), Ok(()));
}

#[test]
fn validate_sender_points_allows_the_cap_itself() {
    let ledger = Syndeo::new(account(1), Some(5));
    assert_eq!(ledger.validate_sender_points(2, 3), Ok(()));
    assert_eq!(ledger.validate_sender_points(0, 5), Ok(()));
    assert_eq!(
        ledger.validate_sender_points(3, 3),
        Err(ContractError::MaxPointsPerSenderExceeded)
    );
    assert_eq!(
        ledger.validate_sender_points(6, 0),
        Err(ContractError::MaxPointsPerSenderExceeded)
    );
}

#[test]
fn validate_reward_settles_the_amount() {
    let ledger = Syndeo::new(account(1), None);
    assert_eq!(ledger.validate_reward(100, None), Ok(100));
    assert_eq!(ledger.validate_reward(100, Some(40)), Ok(40));
    assert_eq!(ledger.validate_reward(100, Some(100)), Ok(100));
    assert_eq!(ledger.validate_reward(100, Some(0)), Err(ContractError::NullFunds));
    assert_eq!(ledger.validate_reward(0, None), Err(ContractError::NullFunds));
    assert_eq!(ledger.validate_reward(0, Some(0)), Err(ContractError::NullFunds));
    assert_eq!(
        ledger.validate_reward(100, Some(101)),
        Err(ContractError::RewardExceedsContractBalance)
    );
    assert_eq!(
        ledger.validate_reward(0, Some(1)),
        Err(ContractError::RewardExceedsContractBalance)
    );
}

#[test]
fn validate_recipients_exist_wants_one_recipient() {
    let mut ledger = three_members(None);
    assert_eq!(ledger.validate_recipients_exist(), Err(ContractError::NoRecipients));
    assert!(ledger.award(account(1), account(2), 1).is_ok());
    assert_eq!(ledger.validate_recipients_exist(), Ok(()));
}

#[test]
fn awards_keep_the_books_balanced() {
    let mut ledger = three_members(Some(6));
    let awards = [(1u8, 2u8, 2u64), (1, 3, 3), (2, 3, 6), (3, 1, 1), (3, 2, 4)];
    let mut total = 0u64;
    for (from, to, points) in awards {
        assert!(ledger.check_award_fits(account(from), account(to), points));
        assert_eq!(
            ledger.award(account(from), account(to), points),
            Ok(Award { sender: account(from), recipient: account(to), points })
        );
        total += points;
        assert_eq!(ledger.total_points, total);
        assert_eq!(sum_points(&ledger.recipients, &ledger.points_by_recipient), total as u128);
        assert_eq!(sum_points(&ledger.senders, &ledger.points_by_sender), total as u128);
        assert!(ledger.is_well_formed());
    }
    assert_eq!(ledger.senders, vec![account(1), account(2), account(3)]);
    assert_eq!(ledger.recipients, vec![account(2), account(3), account(1)]);
    assert_eq!(sender_points(&ledger), vec![Some(5), Some(6), Some(5), None, None, None]);
    assert_eq!(recipient_points(&ledger), vec![Some(1), Some(6), Some(9), None, None, None]);
}

#[test]
fn an_award_past_the_cap_changes_nothing() {
    let mut ledger = three_members(Some(5));
    assert!(ledger.award(account(1), account(2), 2).is_ok());
    assert!(ledger.award(account(1), account(3), 3).is_ok());
    let before = snapshot(&ledger);
    assert_eq!(
        ledger.award(account(1), account(2), 1),
        Err(ContractError::MaxPointsPerSenderExceeded)
    );
    assert_eq!(snapshot(&ledger), before);
    assert_eq!(ledger.get_sender_available_points(&account(1)), 0);
    assert_eq!(
        ledger.award(account(2), account(3), 10),
        Err(ContractError::MaxPointsPerSenderExceeded)
    );
    assert_eq!(snapshot(&ledger), before);
}

#[test]
fn members_award_up_to_the_cap_and_no_further() {
    let mut ledger = three_members(Some(5));
    assert!(ledger.award(account(1), account(2), 2).is_ok());
    assert!(ledger.award(account(1), account(3), 3).is_ok());
    assert_eq!(ledger.total_points, 5);
    assert_eq!(ledger.recipients.len(), 2);
    assert_eq!(ledger.senders.len(), 1);
    assert_eq!(
        ledger.award(account(2), account(3), 10),
        Err(ContractError::MaxPointsPerSenderExceeded)
    );
    assert_eq!(ledger.total_points, 5);
}

#[test]
fn awarding_oneself_fails_whoever_one_is() {
    let mut ledger = three_members(None);
    let before = snapshot(&ledger);
    for (who, points) in [(1u8, 1u64), (2, 5), (9, 1), (9, u64::MAX), (1, 11)] {
        assert_eq!(
            ledger.award(account(who), account(who), points),
            Err(ContractError::CannotAwardYourself)
        );
    }
    assert_eq!(snapshot(&ledger), before);
}

#[test]
fn awarding_nothing_fails_whoever_is_named() {
    let mut ledger = three_members(None);
    let before = snapshot(&ledger);
    for (from, to) in [(1u8, 2u8), (1, 1), (8, 9), (2, 9), (9, 2)] {
        assert_eq!(
            ledger.award(account(from), account(to), 0),
            Err(ContractError::AwardPointsMustBeGreaterThanZero)
        );
    }
    assert_eq!(snapshot(&ledger), before);
}

#[test]
fn awards_are_among_members_only() {
    let mut ledger = three_members(None);
    assert_eq!(
        ledger.award(account(4), account(2), 1),
        Err(ContractError::SenderIsNotMember)
    );
    assert_eq!(
        ledger.award(account(4), account(5), 1),
        Err(ContractError::SenderIsNotMember)
    );
    assert_eq!(
        ledger.award(account(2), account(5), 1),
        Err(ContractError::RecipientIsNotMember)
    );
    assert_eq!(ledger.total_points, 0);
}

#[test]
fn check_award_fits_sees_a_sum_out_of_reach() {
    let mut ledger = three_members(Some(u64::MAX));
    assert!(ledger.award(account(1), account(2), u64::MAX - 1).is_ok());
    assert!(ledger.check_award_fits(account(1), account(2), 1));
    assert!(!ledger.check_award_fits(account(1), account(2), 2));
    assert!(!ledger.check_award_fits(account(2), account(3), 2));
    assert!(ledger.check_award_fits(account(2), account(2), u64::MAX));
    assert!(ledger.check_award_fits(account(9), account(2), u64::MAX));
    assert!(ledger.award(account(3), account(2), 1).is_ok());
    assert_eq!(ledger.total_points, u64::MAX);
    assert!(!ledger.check_award_fits(account(2), account(3), 1));
}

#[test]
fn available_points_never_go_below_zero() {
    let mut ledger = three_members(None);
    assert_eq!(ledger.get_sender_available_points(&account(1)), 10);
    assert!(ledger.award(account(1), account(2), 3).is_ok());
    assert_eq!(ledger.get_sender_available_points(&account(1)), 7);
    assert_eq!(ledger.get_sender_available_points(&account(2)), 10);
    assert_eq!(ledger.get_sender_available_points(&account(9)), 10);
    assert_eq!(ledger.set_max_points_per_sender(account(1), 2), Ok(()));
    assert_eq!(ledger.get_sender_available_points(&account(1)), 0);
    assert_eq!(ledger.get_sender_available_points(&account(2)), 2);
}

#[test]
fn the_summary_reports_points_recipients_and_funds() {
    let mut ledger = three_members(None);
    assert_eq!(
        ledger.get_rewards_summary(77),
        RewardsSummary { assigned_points: 0, members_awarded: 0, funds: 77 }
    );
    assert!(ledger.award(account(1), account(2), 2).is_ok());
    assert!(ledger.award(account(3), account(2), 4).is_ok());
    assert!(ledger.award(account(2), account(1), 1).is_ok());
    assert_eq!(
        ledger.get_rewards_summary(u128::MAX),
        RewardsSummary { assigned_points: 7, members_awarded: 2, funds: u128::MAX }
    );
}

#[test]
fn update_senders_and_recipients_lists_each_account_once() {
    let mut ledger = Syndeo::new(account(1), None);
    ledger.update_senders_and_recipients(account(1), account(2));
    ledger.update_senders_and_recipients(account(1), account(3));
    ledger.update_senders_and_recipients(account(2), account(3));
    assert_eq!(ledger.senders, vec![account(1), account(2)]);
    assert_eq!(ledger.recipients, vec![account(2), account(3)]);
    assert_eq!(ledger.total_points, 0);
}

#[test]
fn reset_points_drops_the_counters_of_the_active_senders() {
    let mut ledger = three_members(None);
    assert!(ledger.award(account(1), account(2), 2).is_ok());
    assert!(ledger.award(account(3), account(2), 4).is_ok());
    ledger.reset_points();
    assert_eq!(sender_points(&ledger), vec![None; 6]);
    assert!(ledger.senders.is_empty());
    assert!(ledger.recipients.is_empty());
    assert_eq!(ledger.total_points, 0);
    assert_eq!(ledger.points_by_recipient.get(&account(2)), Some(6));
    assert_eq!(ledger.members, vec![account(1), account(2), account(3)]);
}

#[test]
fn a_distribution_starts_a_new_period() {
    let mut ledger = three_members(Some(5));
    assert!(ledger.award(account(1), account(2), 5).is_ok());
    assert!(ledger.award(account(2), account(3), 5).is_ok());
    assert!(ledger.award(account(3), account(2), 5).is_ok());
    assert_eq!(
        ledger.distribute_rewards(account(1), 30_000_000_000_000, None),
        Ok(vec![
            RewardGranted { recipient: account(2), reward: 20_000_000_000_000, points: 10 },
            RewardGranted { recipient: account(3), reward: 10_000_000_000_000, points: 5 },
        ])
    );
    assert_eq!(ledger.total_points, 0);
    assert!(ledger.senders.is_empty());
    assert!(ledger.recipients.is_empty());
    assert_eq!(sender_points(&ledger), vec![None; 6]);
    assert_eq!(recipient_points(&ledger), vec![None; 6]);
    assert_eq!(ledger.members, vec![account(1), account(2), account(3)]);
    assert_eq!(ledger.max_points_per_sender, 5);
    assert!(ledger.is_well_formed());
    assert_eq!(ledger.get_sender_available_points(&account(1)), 5);
    assert!(ledger.award(account(1), account(2), 5).is_ok());
    assert_eq!(
        ledger.distribute_rewards(account(1), 7, None),
        Ok(vec![RewardGranted { recipient: account(2), reward: 7, points: 5 }])
    );
}

#[test]
fn what_rounding_leaves_stays_in_the_pool() {
    let mut ledger = three_members(None);
    assert!(ledger.award(account(1), account(2), 1).is_ok());
    assert!(ledger.award(account(2), account(3), 1).is_ok());
    assert!(ledger.award(account(3), account(1), 1).is_ok());
    let grants = ledger.distribute_rewards(account(1), 100, Some(11)).unwrap();
    assert_eq!(
        grants,
        vec![
            RewardGranted { recipient: account(2), reward: 3, points: 1 },
            RewardGranted { recipient: account(3), reward: 3, points: 1 },
            RewardGranted { recipient: account(1), reward: 3, points: 1 },
        ]
    );
    let paid: u128 = grants.iter().map(|g| g.reward).sum();
    assert!(paid <= 11);
    assert!(11 - paid <= 2);
}

#[test]
fn a_distribution_of_the_largest_pool_does_not_overflow() {
    let mut ledger = three_members(Some(u64::MAX));
    assert!(ledger.award(account(1), account(2), u64::MAX - 1).is_ok());
    assert!(ledger.award(account(2), account(3), 1).is_ok());
    let grants = ledger.distribute_rewards(account(1), u128::MAX, None).unwrap();
    assert_eq!(
        grants,
        vec![
            RewardGranted {
                recipient: account(2),
                reward: u128::MAX - (1u128 << 64) - 1,
                points: u64::MAX - 1,
            },
            RewardGranted { recipient: account(3), reward: (1u128 << 64) + 1, points: 1 },
        ]
    );
}

#[test]
fn a_distribution_without_recipients_changes_nothing() {
    let mut ledger = three_members(None);
    let before = snapshot(&ledger);
    assert_eq!(
        ledger.distribute_rewards(account(1), 50, None),
        Err(ContractError::NoRecipients)
    );
    assert_eq!(
        ledger.distribute_rewards(account(1), 0, Some(0)),
        Err(ContractError::NoRecipients)
    );
    assert_eq!(snapshot(&ledger), before);
}

#[test]
fn a_distribution_is_for_the_admin_only() {
    let mut ledger = three_members(None);
    assert!(ledger.award(account(1), account(2), 1).is_ok());
    let before = snapshot(&ledger);
    assert_eq!(
        ledger.distribute_rewards(account(2), 50, None),
        Err(ContractError::AdminRequired)
    );
    assert_eq!(
        ledger.distribute_rewards(account(2), 50, Some(0)),
        Err(ContractError::AdminRequired)
    );
    assert_eq!(snapshot(&ledger), before);
}

#[test]
fn a_distribution_of_nothing_or_too_much_changes_nothing() {
    let mut ledger = three_members(None);
    assert!(ledger.award(account(1), account(2), 1).is_ok());
    let before = snapshot(&ledger);
    assert_eq!(
        ledger.distribute_rewards(account(1), 50, Some(0)),
        Err(ContractError::NullFunds)
    );
    assert_eq!(ledger.distribute_rewards(account(1), 0, None), Err(ContractError::NullFunds));
    assert_eq!(
        ledger.distribute_rewards(account(1), 50, Some(51)),
        Err(ContractError::RewardExceedsContractBalance)
    );
    assert_eq!(snapshot(&ledger), before);
    assert_eq!(
        ledger.distribute_rewards(account(1), 50, Some(50)),
        Ok(vec![RewardGranted { recipient: account(2), reward: 50, points: 1 }])
    );
}

#[test]
fn is_well_formed_sees_books_that_do_not_balance() {
    let mut ledger = three_members(None);
    assert!(ledger.award(account(1), account(2), 2).is_ok());
    assert!(ledger.is_well_formed());
    ledger.total_points = 3;
    assert!(!ledger.is_well_formed());
    ledger.total_points = 2;
    ledger.recipients.push(account(3));
    assert!(!ledger.is_well_formed());
    ledger.recipients.pop();
    ledger.members.push(account(1));
    assert!(!ledger.is_well_formed());
    ledger.members.pop();
    ledger.points_by_sender.insert(account(1), 1);
    assert!(!ledger.is_well_formed());
    ledger.points_by_sender.insert(account(1), 2);
    assert!(ledger.is_well_formed());
}
