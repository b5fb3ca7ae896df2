use ecoproof::challenges::{ChallengeError, ChallengeRegistry};
use ecoproof::dao::Dao;
use ecoproof::submissions::{
    PostStatus, RestoreError, SubmissionStore, UserSubmission, WeatherReading,
    CHALLENGE_SUBMISSION_TTL_NS,
};
use ecoproof::votes::{VoteError, VoteLedger};

fn submit(dao: &mut Dao, user: &str, city: &str) -> u64 {
    dao.submit_weather_data(
        user.to_string(),
        10,
        20,
        city.to_string(),
        1_000,
        "Clouds".to_string(),
        "p".to_string(),
        0,
    )
}

#[test]
fn update_and_delete_votes() {
    let mut ledger = VoteLedger::new();
    let bob = "bob".to_string();
    assert_eq!(ledger.update(&bob, 1, true), Err(VoteError::VoteNotFound));
    assert_eq!(ledger.delete(&bob, 1), Err(VoteError::VoteNotFound));
    ledger.cast(bob.clone(), 1, true).unwrap();
    ledger.cast("eve".to_string(), 1, true).unwrap();
    ledger.cast(bob.clone(), 2, false).unwrap();
    assert_eq!(ledger.update(&bob, 1, false), Ok(()));
    let t = ledger.tally(1);
    assert_eq!((t.data_id, t.upvotes, t.downvotes), (1, 1, 1));
    assert_eq!(ledger.delete(&bob, 1), Ok(()));
    let t = ledger.tally(1);
    assert_eq!((t.upvotes, t.downvotes), (1, 0));
    assert!(!ledger.has_vote(&bob, 1));
    assert_eq!(ledger.cast(bob.clone(), 1, true), Ok(()));
    let mine = ledger.get_votes_by_user(&bob);
    assert_eq!(mine.len(), 2);
    assert_eq!((mine[0].data_id, mine[0].vote_value), (2, false));
    assert_eq!((mine[1].data_id, mine[1].vote_value), (1, true));
}

#[test]
fn leaderboard_orders_by_metric_then_id() {
    let mut dao = Dao::new();
    for _ in 0..4 {
        submit(&mut dao, "a", "X");
    }
    dao.vote_on_data("u1".to_string(), 2, false).unwrap();
    dao.vote_on_data("u2".to_string(), 2, false).unwrap();
    dao.vote_on_data("u1".to_string(), 3, true).unwrap();
    dao.vote_on_data("u1".to_string(), 4, true).unwrap();
    let total = dao.get_leaderboard_by_total_votes();
    let ids: Vec<u64> = total.iter().map(|s| s.data_id).collect();
    assert_eq!(ids, vec![2, 3, 4]);
    let up = dao.get_leaderboard_by_upvotes();
    let ids: Vec<u64> = up.iter().map(|s| s.data_id).collect();
    assert_eq!(ids, vec![3, 4, 2]);
    assert_eq!((up[2].upvotes, up[2].downvotes), (0, 2));
}

#[test]
fn leaderboard_keeps_ten() {
    let mut dao = Dao::new();
    for i in 0..12u64 {
        let id = submit(&mut dao, "a", "X");
        for v in 0..(i % 3) {
            dao.vote_on_data(format!("u{}", v), id, true).unwrap();
        }
        dao.vote_on_data("last".to_string(), id, false).unwrap();
    }
    let board = dao.get_leaderboard_by_total_votes();
    let ids: Vec<u64> = board.iter().map(|s| s.data_id).collect();
    assert_eq!(ids, vec![3, 6, 9, 12, 2, 5, 8, 11, 1, 4]);
    assert!(Dao::new().get_leaderboard_by_upvotes().is_empty());
}

#[test]
fn city_lookup_ignores_case() {
    let mut dao = Dao::new();
    submit(&mut dao, "a", "Denver");
    submit(&mut dao, "b", "Boulder");
    submit(&mut dao, "c", "DENVER");
    let found = dao.submissions.get_submissions_by_city(&"denver".to_string());
    let ids: Vec<u64> = found.iter().map(|s| s.data_id).collect();
    assert_eq!(ids, vec![1, 3]);
    assert!(dao.submissions.get_submissions_by_city(&"Aspen".to_string()).is_empty());
}

#[test]
fn per_user_projections() {
    let mut dao = Dao::new();
    submit(&mut dao, "a", "Denver");
    submit(&mut dao, "b", "Boulder");
    submit(&mut dao, "a", "Golden");
    let a = "a".to_string();
    let posts = dao.submissions.get_user_posts(&a);
    assert_eq!(posts.iter().map(|s| s.data_id).collect::<Vec<_>>(), vec![1, 3]);
    let summary = dao.submissions.get_user_submission_summary(&a);
    assert_eq!(summary[1].city, "Golden");
    assert_eq!(summary[1].status, PostStatus::Open);
    let locs = dao.submissions.get_user_submission_locations(&a);
    assert_eq!((locs[0].data_id, locs[0].latitude_e7, locs[0].longitude_e7), (1, 10, 20));
    let times = dao.submissions.get_all_expiration_times();
    assert_eq!(times.len(), 3);
    assert_eq!(times[2].data_id, 3);
    assert_eq!(dao.submissions.get_expiration_time(4), None);
    assert_eq!(dao.submissions.get_post_status(2), Some(PostStatus::Open));
}

#[test]
fn city_map_groups_by_city() {
    let mut dao = Dao::new();
    dao.users.create_tg_user(
        "a".to_string(),
        "Ann".to_string(),
        "L".to_string(),
        "ann".to_string(),
        "en".to_string(),
        false,
        "pic".to_string(),
    );
    submit(&mut dao, "a", "Denver");
    submit(&mut dao, "b", "Boulder");
    submit(&mut dao, "a", "Denver");
    dao.mark_submission_rewarded(2).unwrap();
    let map = dao.get_submission_map_by_city();
    assert_eq!(map.len(), 2);
    let denver = map.iter().find(|(c, _)| c == "Denver").unwrap();
    assert_eq!(denver.1.iter().map(|s| s.data_id).collect::<Vec<_>>(), vec![1, 3]);
    assert_eq!(denver.1[0].username, Some("ann".to_string()));
    let boulder = map.iter().find(|(c, _)| c == "Boulder").unwrap();
    assert_eq!(boulder.1[0].username, None);
    let paid = dao.get_paid_submission_map_by_city();
    assert_eq!(paid.len(), 1);
    assert_eq!(paid[0].0, "Boulder");
    assert_eq!(paid[0].1[0].status, PostStatus::Paid);
}

fn challenge(reg: &mut ChallengeRegistry, duration: u64, now: u64) -> u64 {
    reg.create_challenge("Park".to_string(), 397_000_000, -1_049_000_000, 500_000, duration, "pic".to_string(), now)
}

#[test]
fn challenge_ids_and_activity() {
    let mut reg = ChallengeRegistry::new();
    assert_eq!(challenge(&mut reg, 100, 1_000), 1);
    assert_eq!(challenge(&mut reg, 5, 1_000), 2);
    let c = reg.get_challenge(1).unwrap();
    assert_eq!(c.expiration, 1_100);
    assert!(reg.is_active(1, 1_099));
    assert!(!reg.is_active(1, 1_100));
    assert!(!reg.is_active(3, 0));
    assert_eq!(reg.get_unexpired_challenges(1_050).len(), 1);
    assert_eq!(reg.get_all_challenges().len(), 2);
}

#[test]
fn challenge_eligibility() {
    let mut reg = ChallengeRegistry::new();
    challenge(&mut reg, 100, 0);
    assert_eq!(reg.is_submission_within_challenge(1, 50, true), Ok(()));
    assert_eq!(reg.is_submission_within_challenge(1, 50, false), Err(ChallengeError::OutsideGeofence));
    assert_eq!(reg.is_submission_within_challenge(1, 100, true), Err(ChallengeError::Expired));
    assert_eq!(reg.is_submission_within_challenge(2, 0, true), Err(ChallengeError::NotFound));
}

#[test]
fn challenge_submission_window() {
    let mut dao = Dao::new();
    challenge(&mut dao.challenges, 1_000, 0);
    let r = dao.submit_weather_data_with_challenge(
        "a".to_string(),
        0,
        0,
        "Park".to_string(),
        0,
        "Sun".to_string(),
        "p".to_string(),
        1,
        10,
        true,
    );
    assert_eq!(r, Ok(1));
    let s = dao.submissions.get_submission(1).unwrap();
    assert_eq!(s.expiration_timestamp, 10 + CHALLENGE_SUBMISSION_TTL_NS);
    let r = dao.submit_weather_data_with_challenge(
        "a".to_string(),
        0,
        0,
        "Far".to_string(),
        0,
        "Sun".to_string(),
        "p".to_string(),
        1,
        10,
        false,
    );
    assert_eq!(r, Err(ChallengeError::OutsideGeofence));
    assert_eq!(dao.submissions.len(), 1);
}

#[test]
fn challenges_expiring_soon() {
    let mut reg = ChallengeRegistry::new();
    challenge(&mut reg, 2_000_000_000, 0);
    challenge(&mut reg, 9_000_000_000, 0);
    challenge(&mut reg, 1, 0);
    let soon = reg.get_challenges_expiring_soon(3, 0);
    assert_eq!(soon.iter().map(|c| c.id).collect::<Vec<_>>(), vec![1, 3]);
    let all = reg.get_challenges_expiring_soon(u64::MAX, 0);
    assert_eq!(all.len(), 3);
    let expired = reg.get_challenges_expiring_soon(0, 10_000_000_000);
    assert_eq!(expired.len(), 3);
}

fn backup_entry(key: u64, stored_id: u64, rewarded: bool, status: PostStatus) -> (u64, UserSubmission) {
    (
        key,
        UserSubmission {
            data_id: stored_id,
            user: "a".to_string(),
            data: WeatherReading {
                latitude_e7: 0,
                longitude_e7: 0,
                city: "C".to_string(),
                temperature_mc: 0,
                weather: "W".to_string(),
                timestamp: 0,
                submission_photo_url: "p".to_string(),
            },
            rewarded,
            status,
            expiration_timestamp: 5,
        },
    )
}

#[test]
fn restore_repairs_ids_and_paid_status() {
    let store = SubmissionStore::from_backup(vec![
        backup_entry(1, 0, false, PostStatus::Pending),
        backup_entry(2, 2, true, PostStatus::Pending),
    ])
    .unwrap();
    let first = store.get_submission(1).unwrap();
    assert_eq!(first.data_id, 1);
    assert_eq!(first.status, PostStatus::Pending);
    assert_eq!(store.get_submission(2).unwrap().status, PostStatus::Paid);
}

#[test]
fn restore_rejects_gaps() {
    let r = SubmissionStore::from_backup(vec![
        backup_entry(1, 1, false, PostStatus::Open),
        backup_entry(3, 3, false, PostStatus::Open),
    ]);
    assert!(matches!(r, Err(RestoreError::KeyOutOfOrder(1))));
}
