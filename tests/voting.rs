use ecoproof::dao::{Dao, FinalizeError, FinalizeOutcome, RewardError, TransferOutcome};
use ecoproof::submissions::{PostStatus, SUBMISSION_TTL_NS};
use ecoproof::votes::VoteError;

fn submit_at(dao: &mut Dao, user: &str, now: u64) -> u64 {
    dao.submit_weather_data(
        user.to_string(),
        397_791_000,
        -1_049_707_000,
        "Denver".to_string(),
        21_500,
        "Clear".to_string(),
        "https://example.org/p.jpg".to_string(),
        now,
    )
}

#[test]
fn ids_are_assigned_in_order() {
    let mut dao = Dao::new();
    assert_eq!(submit_at(&mut dao, "alice", 5), 1);
    assert_eq!(submit_at(&mut dao, "bob", 6), 2);
    let s = dao.submissions.get_submission(2).unwrap();
    assert_eq!(s.user, "bob");
    assert_eq!(s.status, PostStatus::Open);
    assert_eq!(s.expiration_timestamp, 6 + SUBMISSION_TTL_NS);
    assert!(!s.rewarded);
    assert!(dao.submissions.get_submission(3).is_none());
    assert!(dao.submissions.get_submission(0).is_none());
}

#[test]
fn duplicate_vote_is_a_conflict_and_leaves_tally() {
    let mut dao = Dao::new();
    let id = submit_at(&mut dao, "alice", 0);
    assert_eq!(dao.vote_on_data("bob".to_string(), id, true), Ok(()));
    let before = dao.get_vote_summary(id);
    assert_eq!(dao.vote_on_data("bob".to_string(), id, false), Err(VoteError::DuplicateVote));
    let after = dao.get_vote_summary(id);
    assert_eq!((before.upvotes, before.downvotes), (1, 0));
    assert_eq!((after.upvotes, after.downvotes), (1, 0));
}

#[test]
fn vote_on_unknown_submission() {
    let mut dao = Dao::new();
    assert_eq!(dao.vote_on_data("bob".to_string(), 1, true), Err(VoteError::SubmissionNotFound));
}

#[test]
fn finalize_before_expiration_is_a_no_op() {
    let mut dao = Dao::new();
    let id = submit_at(&mut dao, "alice", 100);
    let r = dao.finalize_post_status(id, 100 + SUBMISSION_TTL_NS - 1);
    assert_eq!(r, Ok(FinalizeOutcome::StillOpen(PostStatus::Open)));
    assert_eq!(dao.submissions.get_post_status(id), Some(PostStatus::Open));
    assert_eq!(dao.finalize_post_status(9, 0), Err(FinalizeError::NotFound));
}

fn finalize_with(valid: usize, invalid: usize) -> Result<FinalizeOutcome, FinalizeError> {
    let mut dao = Dao::new();
    let id = submit_at(&mut dao, "alice", 0);
    for i in 0..valid {
        dao.vote_on_data(format!("v{}", i), id, true).unwrap();
    }
    for i in 0..invalid {
        dao.vote_on_data(format!("x{}", i), id, false).unwrap();
    }
    dao.finalize_post_status(id, SUBMISSION_TTL_NS)
}

#[test]
fn finalize_three_valid_one_invalid_is_pending() {
    assert_eq!(finalize_with(3, 1), Ok(FinalizeOutcome::Finalized(PostStatus::Pending)));
}

#[test]
fn finalize_one_valid_three_invalid_is_expired() {
    assert_eq!(finalize_with(1, 3), Ok(FinalizeOutcome::Finalized(PostStatus::Expired)));
}

#[test]
fn finalize_tie_is_expired() {
    assert_eq!(finalize_with(2, 2), Ok(FinalizeOutcome::Finalized(PostStatus::Expired)));
}

#[test]
fn finalize_twice_is_refused() {
    let mut dao = Dao::new();
    let id = submit_at(&mut dao, "alice", 0);
    dao.vote_on_data("bob".to_string(), id, true).unwrap();
    assert_eq!(
        dao.finalize_post_status(id, SUBMISSION_TTL_NS),
        Ok(FinalizeOutcome::Finalized(PostStatus::Pending))
    );
    assert_eq!(
        dao.finalize_post_status(id, SUBMISSION_TTL_NS + 1),
        Err(FinalizeError::AlreadyFinalized(PostStatus::Pending))
    );
}

#[test]
fn reward_scenario_end_to_end() {
    let mut dao = Dao::new();
    dao.users.create_tg_user(
        "alice".to_string(),
        "Alice".to_string(),
        "A".to_string(),
        "alice_a".to_string(),
        "en".to_string(),
        false,
        "https://example.org/a.png".to_string(),
    );
    dao.users.update_wallet_address(&"alice".to_string(), "aaaaa-aa".to_string()).unwrap();
    let id = submit_at(&mut dao, "alice", 0);
    dao.vote_on_data("u1".to_string(), id, true).unwrap();
    dao.vote_on_data("u2".to_string(), id, true).unwrap();
    dao.vote_on_data("u3".to_string(), id, false).unwrap();
    assert_eq!(
        dao.finalize_post_status(id, SUBMISSION_TTL_NS),
        Ok(FinalizeOutcome::Finalized(PostStatus::Pending))
    );
    let req = dao.begin_reward(id).unwrap();
    assert_eq!(req.data_id, id);
    assert_eq!(req.user_id, "alice");
    assert_eq!(req.amount, 10_000);
    assert_eq!(req.to, candid::Principal::from_text("aaaaa-aa").unwrap());
    let receipt = dao.finish_reward(id, TransferOutcome::Completed(candid::Nat::from(42u64))).unwrap();
    assert_eq!(receipt.block_index, candid::Nat::from(42u64));
    let s = dao.submissions.get_submission(id).unwrap();
    assert!(s.rewarded);
    assert_eq!(s.status, PostStatus::Paid);
    assert!(matches!(dao.begin_reward(id), Err(RewardError::AlreadyRewarded)));
}

#[test]
fn concurrent_reward_issues_one_transfer() {
    let mut dao = Dao::new();
    dao.users.create_tg_user(
        "alice".to_string(),
        "Alice".to_string(),
        "A".to_string(),
        "alice_a".to_string(),
        "en".to_string(),
        false,
        "p".to_string(),
    );
    dao.users.update_wallet_address(&"alice".to_string(), "2vxsx-fae".to_string()).unwrap();
    let id = submit_at(&mut dao, "alice", 0);
    dao.vote_on_data("u1".to_string(), id, true).unwrap();
    assert!(dao.begin_reward(id).is_ok());
    assert!(matches!(dao.begin_reward(id), Err(RewardError::RewardInProgress)));
    assert!(matches!(dao.mark_submission_rewarded(id), Err(RewardError::RewardInProgress)));
    let r = dao.finish_reward(id, TransferOutcome::Unreachable("down".to_string()));
    assert!(matches!(r, Err(RewardError::CallFailed(ref m)) if m == "down"));
    assert!(!dao.submissions.get_submission(id).unwrap().rewarded);
    assert!(dao.begin_reward(id).is_ok());
}
