use ecoproof::dao::{Dao, RewardError, TransferOutcome, REWARD_TOKENS};
use ecoproof::ledger::TransferError;
use ecoproof::submissions::{PostStatus, SUBMISSION_TTL_NS};

fn dao_with_voted_submission(owner: &str, valid: usize, invalid: usize) -> (Dao, u64) {
    let mut dao = Dao::new();
    let id = dao.submit_weather_data(
        owner.to_string(),
        1,
        2,
        "Boulder".to_string(),
        0,
        "Rain".to_string(),
        "p".to_string(),
        0,
    );
    for i in 0..valid {
        dao.vote_on_data(format!("v{}", i), id, true).unwrap();
    }
    for i in 0..invalid {
        dao.vote_on_data(format!("x{}", i), id, false).unwrap();
    }
    (dao, id)
}

fn register(dao: &mut Dao, user: &str) {
    dao.users.create_tg_user(
        user.to_string(),
        "F".to_string(),
        "L".to_string(),
        "u".to_string(),
        "en".to_string(),
        false,
        "pic".to_string(),
    );
}

#[test]
fn token_reward_credits_balance_once() {
    let (mut dao, id) = dao_with_voted_submission("alice", 2, 1);
    assert_eq!(dao.reward_user(id).unwrap(), REWARD_TOKENS);
    assert_eq!(dao.users.get_balance(&"alice".to_string()), 10);
    let s = dao.submissions.get_submission(id).unwrap();
    assert!(s.rewarded);
    assert_eq!(s.status, PostStatus::Paid);
    assert!(matches!(dao.reward_user(id), Err(RewardError::AlreadyRewarded)));
    assert_eq!(dao.users.get_balance(&"alice".to_string()), 10);
}

#[test]
fn token_reward_adds_to_existing_balance() {
    let (mut dao, id) = dao_with_voted_submission("alice", 1, 0);
    register(&mut dao, "alice");
    let id2 = dao.submit_weather_data(
        "alice".to_string(),
        0,
        0,
        "Boulder".to_string(),
        0,
        "Sun".to_string(),
        "p".to_string(),
        0,
    );
    dao.vote_on_data("z".to_string(), id2, true).unwrap();
    assert_eq!(dao.reward_user(id).unwrap(), 10);
    assert_eq!(dao.reward_user(id2).unwrap(), 20);
    let u = dao.users.get_tg_user(&"alice".to_string()).unwrap();
    assert_eq!(u.balance, 20);
    assert_eq!(u.first_name, Some("F".to_string()));
}

#[test]
fn tie_is_majority_invalid() {
    let (mut dao, id) = dao_with_voted_submission("alice", 2, 2);
    assert!(matches!(dao.reward_user(id), Err(RewardError::MajorityInvalid)));
    assert!(matches!(dao.begin_reward(id), Err(RewardError::MajorityInvalid)));
    assert!(!dao.submissions.get_submission(id).unwrap().rewarded);
}

#[test]
fn reward_of_unknown_submission() {
    let mut dao = Dao::new();
    assert!(matches!(dao.reward_user(1), Err(RewardError::NotFound)));
    assert!(matches!(dao.begin_reward(1), Err(RewardError::NotFound)));
    assert!(matches!(dao.mark_submission_rewarded(1), Err(RewardError::NotFound)));
}

#[test]
fn reward_needs_payout_address() {
    let (mut dao, id) = dao_with_voted_submission("alice", 1, 0);
    assert!(matches!(dao.begin_reward(id), Err(RewardError::NoPayoutAddress)));
    register(&mut dao, "alice");
    assert!(matches!(dao.begin_reward(id), Err(RewardError::NoPayoutAddress)));
}

#[test]
fn reward_rejects_malformed_address() {
    let (mut dao, id) = dao_with_voted_submission("alice", 1, 0);
    register(&mut dao, "alice");
    dao.users.update_wallet_address(&"alice".to_string(), "not a principal".to_string()).unwrap();
    assert!(matches!(dao.begin_reward(id), Err(RewardError::InvalidAddress)));
    dao.users.update_wallet_address(&"alice".to_string(), String::new()).unwrap();
    assert!(matches!(dao.begin_reward(id), Err(RewardError::InvalidAddress)));
    assert!(dao.in_flight.is_empty());
}

#[test]
fn refused_transfer_leaves_submission_unrewarded() {
    let (mut dao, id) = dao_with_voted_submission("alice", 1, 0);
    register(&mut dao, "alice");
    dao.users.update_wallet_address(&"alice".to_string(), "aaaaa-aa".to_string()).unwrap();
    dao.begin_reward(id).unwrap();
    let r = dao.finish_reward(id, TransferOutcome::Refused(TransferError::TooOld));
    assert!(matches!(r, Err(RewardError::TransferFailed(TransferError::TooOld))));
    let s = dao.submissions.get_submission(id).unwrap();
    assert!(!s.rewarded);
    assert_eq!(s.status, PostStatus::Open);
    assert!(dao.in_flight.is_empty());
}

#[test]
fn finish_without_begin_is_refused() {
    let (mut dao, id) = dao_with_voted_submission("alice", 1, 0);
    let r = dao.finish_reward(id, TransferOutcome::Completed(candid::Nat::from(1u64)));
    assert!(matches!(r, Err(RewardError::NotReserved)));
    assert!(!dao.submissions.get_submission(id).unwrap().rewarded);
}

#[test]
fn manual_mark_sets_paid_and_is_idempotent() {
    let (mut dao, id) = dao_with_voted_submission("alice", 0, 0);
    assert!(dao.mark_submission_rewarded(id).is_ok());
    let s = dao.submissions.get_submission(id).unwrap();
    assert!(s.rewarded);
    assert_eq!(s.status, PostStatus::Paid);
    assert!(matches!(dao.mark_submission_rewarded(id), Err(RewardError::AlreadyRewarded)));
    assert!(matches!(dao.begin_reward(id), Err(RewardError::AlreadyRewarded)));
}

#[test]
fn rewarded_submissions_are_always_paid() {
    let (mut dao, id) = dao_with_voted_submission("alice", 3, 0);
    let id2 = dao.submit_weather_data(
        "alice".to_string(),
        0,
        0,
        "X".to_string(),
        0,
        "Y".to_string(),
        "p".to_string(),
        0,
    );
    dao.reward_user(id).unwrap();
    dao.finalize_post_status(id2, SUBMISSION_TTL_NS).unwrap();
    dao.mark_submission_rewarded(id2).unwrap();
    for s in dao.submissions.get_all_submissions() {
        if s.rewarded {
            assert_eq!(s.status, PostStatus::Paid);
        }
    }
    let rewarded = dao.submissions.get_rewarded_submissions(&"alice".to_string());
    assert_eq!(rewarded.len(), 2);
}
