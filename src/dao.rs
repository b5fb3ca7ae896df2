//! The four stores together, and the operations that span them: voting on
//! stored submissions, finalizing by tally, and rewarding.
use vstd::prelude::*;
use candid::Nat;
use crate::challenges::{eligibility, ChallengeError, ChallengeRegistry};
use crate::external::{parse_principal, principal_text_ok};
use crate::ledger::{TransferError, TransferRequest, REWARD_AMOUNT};
use crate::submissions::{
    lookup_submission, PostStatus, SubmissionStore, UserSubmission, WeatherReading,
    CHALLENGE_SUBMISSION_TTL_NS, SUBMISSION_TTL_NS,
};
use crate::users::{balance_of, lookup_user, UserDirectory};
use crate::votes::{has_vote, majority_valid, Vote, VoteError, VoteLedger, VoteSummary};

verus! {

/// Tokens credited to the balance of a user on the path without a ledger.
pub const REWARD_TOKENS: u64 = 10;

/// What finalizing did.
#[derive(PartialEq, Eq, Structural, Clone, Copy, Debug)]
pub enum FinalizeOutcome {
    /// The voting window has not closed: nothing changed; this is the status.
    StillOpen(PostStatus),
    /// The submission left `Open` for this status.
    Finalized(PostStatus),
}

/// Why finalizing was refused.
#[derive(PartialEq, Eq, Structural, Clone, Copy, Debug)]
pub enum FinalizeError {
    NotFound,
    /// The submission had left `Open` already; this is its status.
    AlreadyFinalized(PostStatus),
}

/// Why a reward was refused or failed.
#[derive(Debug)]
pub enum RewardError {
    NotFound,
    AlreadyRewarded,
    /// A transfer for this submission is under way.
    RewardInProgress,
    /// Valid votes do not outnumber invalid ones.
    MajorityInvalid,
    /// The submitter has registered no payout address.
    NoPayoutAddress,
    /// The payout address is not a principal.
    InvalidAddress,
    /// No transfer was under way for this submission.
    NotReserved,
    /// The ledger refused the transfer.
    TransferFailed(TransferError),
    /// The ledger could not be reached; the detail says why.
    CallFailed(String),
}

/// How the ledger answered a transfer request.
pub enum TransferOutcome {
    /// The transfer is recorded in this block.
    Completed(Nat),
    /// The ledger refused it.
    Refused(TransferError),
    /// The call did not reach the ledger or came back rejected.
    Unreachable(String),
}

/// A completed reward: who was paid for which submission, and in which block.
pub struct RewardReceipt {
    pub data_id: u64,
    pub user_id: String,
    pub block_index: Nat,
}

pub open spec fn unrewarded(subs: Seq<UserSubmission>, data_id: u64) -> bool {
    lookup_submission(subs, data_id) is Some && !lookup_submission(subs, data_id)->0.rewarded
}

/// Submissions reserved for payment are distinct, exist and are unrewarded.
pub open spec fn reservations_ok(in_flight: Seq<u64>, subs: Seq<UserSubmission>) -> bool {
    &&& in_flight.no_duplicates()
    &&& forall|k: int| 0 <= k < in_flight.len() ==> #[trigger] unrewarded(subs, in_flight[k])
}

/// The status that a tally gives: `Pending` on a strict valid majority,
/// `Expired` otherwise, ties included.
pub open spec fn finalized_status(votes: Seq<Vote>, data_id: u64) -> PostStatus {
    if majority_valid(votes, data_id) {
        PostStatus::Pending
    } else {
        PostStatus::Expired
    }
}

/// The first reason, if any, why a reward of `data_id` cannot begin, before
/// the payout address is looked at.
pub open spec fn reward_gate(
    subs: Seq<UserSubmission>,
    votes: Seq<Vote>,
    in_flight: Seq<u64>,
    data_id: u64,
) -> Option<RewardError> {
    match lookup_submission(subs, data_id) {
        None => Some(RewardError::NotFound),
        Some(s) => if s.rewarded {
            Some(RewardError::AlreadyRewarded)
        } else if in_flight.contains(data_id) {
            Some(RewardError::RewardInProgress)
        } else if !majority_valid(votes, data_id) {
            Some(RewardError::MajorityInvalid)
        } else {
            None
        },
    }
}

/// A tie is not a valid majority: finalizing on it gives `Expired`, and no
/// reward can begin.
pub proof fn lemma_tie_not_rewarded(
    subs: Seq<UserSubmission>,
    votes: Seq<Vote>,
    in_flight: Seq<u64>,
    data_id: u64,
)
    requires
        crate::votes::count_votes(votes, data_id, true) == crate::votes::count_votes(
            votes,
            data_id,
            false,
        ),
    ensures
        finalized_status(votes, data_id) == PostStatus::Expired,
        reward_gate(subs, votes, in_flight, data_id) is Some,
{
}

/// While a reward of `data_id` is under way, or once it is rewarded, no
/// other reward can begin on it: at most one transfer is ever requested.
pub proof fn lemma_single_transfer(
    subs: Seq<UserSubmission>,
    votes: Seq<Vote>,
    in_flight: Seq<u64>,
    data_id: u64,
)
    requires
        lookup_submission(subs, data_id) is Some,
        in_flight.contains(data_id) || lookup_submission(subs, data_id)->0.rewarded,
    ensures
        reward_gate(subs, votes, in_flight, data_id) is Some,
{
}

/// Once a reward of `data_id` has completed, a second one is refused as
/// already rewarded.
pub proof fn lemma_reward_twice(
    subs: Seq<UserSubmission>,
    votes: Seq<Vote>,
    in_flight: Seq<u64>,
    data_id: u64,
)
    requires
        lookup_submission(subs, data_id) is Some,
    ensures
        reward_gate(mark_paid(subs, data_id), votes, in_flight, data_id) == Some(
            RewardError::AlreadyRewarded,
        ),
{
}

/// The submission as it stands once rewarded.
pub open spec fn rewarded_version(s: UserSubmission) -> UserSubmission {
    UserSubmission { rewarded: true, status: PostStatus::Paid, ..s }
}

pub open spec fn mark_paid(subs: Seq<UserSubmission>, data_id: u64) -> Seq<UserSubmission> {
    subs.update(data_id - 1, rewarded_version(subs[data_id - 1]))
}

/// The payout address registered for `user`, if any.
pub open spec fn payout_address(users: Seq<crate::users::User>, user: Seq<char>) -> Option<String> {
    match lookup_user(users, user) {
        Some(u) => u.wallet_address,
        None => None,
    }
}

pub struct Dao {
    pub submissions: SubmissionStore,
    pub votes: VoteLedger,
    pub challenges: ChallengeRegistry,
    pub users: UserDirectory,
    /// Submissions whose reward transfer is under way.
    pub in_flight: Vec<u64>,
}

impl Dao {
    pub open spec fn wf(&self) -> bool {
        &&& self.submissions.wf()
        &&& self.votes.wf()
        &&& self.challenges.wf()
        &&& self.users.wf()
        &&& reservations_ok(self.in_flight@, self.submissions@)
    }

    pub fn new() -> (r: Dao)
        ensures
            r.wf(),
            r.submissions@.len() == 0,
            r.votes@.len() == 0,
            r.challenges@.len() == 0,
            r.users@.len() == 0,
            r.in_flight@.len() == 0,
    {
        Dao {
            submissions: SubmissionStore::new(),
            votes: VoteLedger::new(),
            challenges: ChallengeRegistry::new(),
            users: UserDirectory::new(),
            in_flight: Vec::new(),
        }
    }

    fn reserved(&self, data_id: u64) -> (r: Option<usize>)
        ensures
            match r {
                Some(k) => k < self.in_flight@.len() && self.in_flight@[k as int] == data_id,
                None => !self.in_flight@.contains(data_id),
            },
    {
        let mut k: usize = 0;
        while k < self.in_flight.len()
            invariant
                k <= self.in_flight@.len(),
                forall|j: int| 0 <= j < k ==> self.in_flight@[j] != data_id,
            decreases self.in_flight@.len() - k,
        {
            if self.in_flight[k] == data_id {
                return Some(k);
            }
            k = k + 1;
        }
        None
    }

    /// Records an observation made at `now`; it stays open for votes for
    /// the ordinary window. Returns the new id.
    pub fn submit_weather_data(
        &mut self,
        telegram_id: String,
        latitude_e7: i64,
        longitude_e7: i64,
        city: String,
        temperature_mc: i64,
        weather: String,
        submission_photo_url: String,
        now: u64,
    ) -> (r: u64)
        requires
            old(self).wf(),
            old(self).submissions@.len() < u64::MAX,
            now + SUBMISSION_TTL_NS <= u64::MAX,
        ensures
            final(self).wf(),
            r == old(self).submissions@.len() + 1,
            final(self).submissions@ == old(self).submissions@.push(
                (UserSubmission {
                    data_id: r,
                    user: telegram_id,
                    data: WeatherReading {
                        latitude_e7: latitude_e7,
                        longitude_e7: longitude_e7,
                        city: city,
                        temperature_mc: temperature_mc,
                        weather: weather,
                        timestamp: now,
                        submission_photo_url: submission_photo_url,
                    },
                    rewarded: false,
                    status: PostStatus::Open,
                    expiration_timestamp: (now + SUBMISSION_TTL_NS) as u64,
                }),
            ),
            final(self).votes@ == old(self).votes@,
            final(self).challenges@ == old(self).challenges@,
            final(self).users@ == old(self).users@,
            final(self).in_flight@ == old(self).in_flight@,
    {
        let data = WeatherReading {
            latitude_e7,
            longitude_e7,
            city,
            temperature_mc,
            weather,
            timestamp: now,
            submission_photo_url,
        };
        let ghost before = self.submissions@;
        let id = self.submissions.insert_new(telegram_id, data, now + SUBMISSION_TTL_NS);
        proof {
            assert forall|k: int| 0 <= k < self.in_flight@.len() implies #[trigger] unrewarded(
                self.submissions@,
                self.in_flight@[k],
            ) by {
                assert(unrewarded(before, self.in_flight@[k]));
            }
        }
        id
    }

    /// Records an observation made at `now` under challenge `challenge_id`;
    /// `within` tells whether its point lies in the challenge's circle. It
    /// stays open for the shorter challenge window. Returns the new id.
    pub fn submit_weather_data_with_challenge(
        &mut self,
        telegram_id: String,
        latitude_e7: i64,
        longitude_e7: i64,
        city: String,
        temperature_mc: i64,
        weather: String,
        submission_photo_url: String,
        challenge_id: u64,
        now: u64,
        within: bool,
    ) -> (r: Result<u64, ChallengeError>)
        requires
            old(self).wf(),
            old(self).submissions@.len() < u64::MAX,
            now + CHALLENGE_SUBMISSION_TTL_NS <= u64::MAX,
        ensures
            final(self).wf(),
            match eligibility(old(self).challenges@, challenge_id, now, within) {
                Err(e) => r == Err::<u64, ChallengeError>(e) && final(self).submissions@ == old(
                    self,
                ).submissions@,
                Ok(_) => r == Ok::<u64, ChallengeError>((old(self).submissions@.len() + 1) as u64)
                    && final(self).submissions@ == old(self).submissions@.push(
                    (UserSubmission {
                        data_id: (old(self).submissions@.len() + 1) as u64,
                        user: telegram_id,
                        data: WeatherReading {
                            latitude_e7: latitude_e7,
                            longitude_e7: longitude_e7,
                            city: city,
                            temperature_mc: temperature_mc,
                            weather: weather,
                            timestamp: now,
                            submission_photo_url: submission_photo_url,
                        },
                        rewarded: false,
                        status: PostStatus::Open,
                        expiration_timestamp: (now + CHALLENGE_SUBMISSION_TTL_NS) as u64,
                    }),
                ),
            },
            final(self).votes@ == old(self).votes@,
            final(self).challenges@ == old(self).challenges@,
            final(self).users@ == old(self).users@,
            final(self).in_flight@ == old(self).in_flight@,
    {
        match self.challenges.is_submission_within_challenge(challenge_id, now, within) {
            Err(e) => Err(e),
            Ok(()) => {
                let data = WeatherReading {
                    latitude_e7,
                    longitude_e7,
                    city,
                    temperature_mc,
                    weather,
                    timestamp: now,
                    submission_photo_url,
                };
                let ghost before = self.submissions@;
                let id = self.submissions.insert_new(
                    telegram_id,
                    data,
                    now + CHALLENGE_SUBMISSION_TTL_NS,
                );
                proof {
                    assert forall|k: int| 0 <= k < self.in_flight@.len() implies #[trigger] unrewarded(
                        self.submissions@,
                        self.in_flight@[k],
                    ) by {
                        assert(unrewarded(before, self.in_flight@[k]));
                    }
                }
                Ok(id)
            },
        }
    }

    /// Casts the vote of `user_id` on an existing submission; one vote per
    /// user and submission.
    pub fn vote_on_data(&mut self, user_id: String, data_id: u64, vote_value: bool) -> (r: Result<
        (),
        VoteError,
    >)
        requires
            old(self).wf(),
        ensures
            final(self).wf(),
            lookup_submission(old(self).submissions@, data_id) is None ==> r == Err::<(), VoteError>(
                VoteError::SubmissionNotFound,
            ),
            lookup_submission(old(self).submissions@, data_id) is Some ==> (r is Ok <==> !has_vote(
                old(self).votes@,
                user_id@,
                data_id,
            )),
            lookup_submission(old(self).submissions@, data_id) is Some && r is Err ==> r == Err::<
                (),
                VoteError,
            >(VoteError::DuplicateVote),
            r is Ok ==> final(self).votes@ == old(self).votes@.push(
                (Vote { user: user_id, data_id: data_id, vote_value: vote_value }),
            ),
            r is Ok ==> has_vote(final(self).votes@, user_id@, data_id),
            r is Err ==> final(self).votes@ == old(self).votes@,
            final(self).submissions@ == old(self).submissions@,
            final(self).challenges@ == old(self).challenges@,
            final(self).users@ == old(self).users@,
            final(self).in_flight@ == old(self).in_flight@,
    {
        let n = self.submissions.len();
        if data_id < 1 || data_id > n as u64 {
            return Err(VoteError::SubmissionNotFound);
        }
        self.votes.cast(user_id, data_id, vote_value)
    }

    /// Changes the value of the vote of `user_id` on `data_id`.
    pub fn update_vote(&mut self, user_id: &String, data_id: u64, new_vote_value: bool) -> (r:
        Result<(), VoteError>)
        requires
            old(self).wf(),
        ensures
            final(self).wf(),
            r is Ok <==> has_vote(old(self).votes@, user_id@, data_id),
            r is Ok ==> final(self).votes@ == old(self).votes@.map_values(
                |v: Vote| crate::votes::revote(v, user_id@, data_id, new_vote_value),
            ),
            r is Err ==> r == Err::<(), VoteError>(VoteError::VoteNotFound) && final(self).votes@
                == old(self).votes@,
            final(self).submissions@ == old(self).submissions@,
            final(self).challenges@ == old(self).challenges@,
            final(self).users@ == old(self).users@,
            final(self).in_flight@ == old(self).in_flight@,
    {
        self.votes.update(user_id, data_id, new_vote_value)
    }

    /// Withdraws the vote of `user_id` on `data_id`.
    pub fn delete_vote(&mut self, user_id: &String, data_id: u64) -> (r: Result<(), VoteError>)
        requires
            old(self).wf(),
        ensures
            final(self).wf(),
            r is Ok <==> has_vote(old(self).votes@, user_id@, data_id),
            r is Ok ==> exists|i: int|
                0 <= i < old(self).votes@.len() && #[trigger] crate::votes::is_vote_of(
                    old(self).votes@[i],
                    user_id@,
                    data_id,
                ) && final(self).votes@ == old(self).votes@.remove(i),
            r is Ok ==> !has_vote(final(self).votes@, user_id@, data_id),
            r is Err ==> r == Err::<(), VoteError>(VoteError::VoteNotFound) && final(self).votes@
                == old(self).votes@,
            final(self).submissions@ == old(self).submissions@,
            final(self).challenges@ == old(self).challenges@,
            final(self).users@ == old(self).users@,
            final(self).in_flight@ == old(self).in_flight@,
    {
        self.votes.delete(user_id, data_id)
    }

    /// Tally of the votes on `data_id`.
    pub fn get_vote_summary(&self, data_id: u64) -> (r: VoteSummary)
        ensures
            r.data_id == data_id,
            r.upvotes == crate::votes::count_votes(self.votes@, data_id, true),
            r.downvotes == crate::votes::count_votes(self.votes@, data_id, false),
    {
        self.votes.tally(data_id)
    }

    /// Closes the voting on `data_id` once its window has passed at `now`:
    /// `Pending` if valid votes outnumber invalid ones, else `Expired`.
    pub fn finalize_post_status(&mut self, data_id: u64, now: u64) -> (r: Result<
        FinalizeOutcome,
        FinalizeError,
    >)
        requires
            old(self).wf(),
        ensures
            final(self).wf(),
            match lookup_submission(old(self).submissions@, data_id) {
                None => r == Err::<FinalizeOutcome, FinalizeError>(FinalizeError::NotFound)
                    && final(self).submissions@ == old(self).submissions@,
                Some(s) => if now < s.expiration_timestamp {
                    r == Ok::<FinalizeOutcome, FinalizeError>(FinalizeOutcome::StillOpen(s.status))
                        && final(self).submissions@ == old(self).submissions@
                } else if s.status != PostStatus::Open {
                    r == Err::<FinalizeOutcome, FinalizeError>(
                        FinalizeError::AlreadyFinalized(s.status),
                    ) && final(self).submissions@ == old(self).submissions@
                } else {
                    r == Ok::<FinalizeOutcome, FinalizeError>(
                        FinalizeOutcome::Finalized(finalized_status(old(self).votes@, data_id)),
                    ) && final(self).submissions@ == old(self).submissions@.update(
                        data_id - 1,
                        (UserSubmission {
                            status: finalized_status(old(self).votes@, data_id),
                            ..s
                        }),
                    )
                },
            },
            final(self).votes@ == old(self).votes@,
            final(self).challenges@ == old(self).challenges@,
            final(self).users@ == old(self).users@,
            final(self).in_flight@ == old(self).in_flight@,
    {
        let n = self.submissions.len();
        if data_id < 1 || data_id > n as u64 {
            return Err(FinalizeError::NotFound);
        }
        let status = match self.submissions.get_post_status(data_id) {
            Some(st) => st,
            None => return Err(FinalizeError::NotFound),
        };
        let expiration = match self.submissions.get_expiration_time(data_id) {
            Some(e) => e,
            None => return Err(FinalizeError::NotFound),
        };
        if now < expiration {
            return Ok(FinalizeOutcome::StillOpen(status));
        }
        if status != PostStatus::Open {
            return Err(FinalizeError::AlreadyFinalized(status));
        }
        let tally = self.votes.tally(data_id);
        let new_status = if tally.upvotes > tally.downvotes {
            PostStatus::Pending
        } else {
            PostStatus::Expired
        };
        let ghost before = self.submissions@;
        self.submissions.set_final_status(data_id, new_status);
        proof {
            assert forall|k: int| 0 <= k < self.in_flight@.len() implies #[trigger] unrewarded(
                self.submissions@,
                self.in_flight@[k],
            ) by {
                assert(unrewarded(before, self.in_flight@[k]));
            }
        }
        Ok(FinalizeOutcome::Finalized(new_status))
    }

    /// Looks up what a reward of `data_id` needs to know, and the first
    /// reason, if any, why it cannot go ahead.
    fn check_reward(&self, data_id: u64) -> (r: Result<UserSubmission, RewardError>)
        requires
            self.wf(),
        ensures
            match reward_gate(self.submissions@, self.votes@, self.in_flight@, data_id) {
                Some(e) => r == Err::<UserSubmission, RewardError>(e),
                None => r == Ok::<UserSubmission, RewardError>(
                    lookup_submission(self.submissions@, data_id)->0,
                ),
            },
    {
        let sub = match self.submissions.get_submission(data_id) {
            Some(s) => s,
            None => return Err(RewardError::NotFound),
        };
        if sub.rewarded {
            return Err(RewardError::AlreadyRewarded);
        }
        if self.reserved(data_id).is_some() {
            return Err(RewardError::RewardInProgress);
        }
        let tally = self.votes.tally(data_id);
        if tally.upvotes <= tally.downvotes {
            return Err(RewardError::MajorityInvalid);
        }
        Ok(sub)
    }

    /// Marks `data_id` rewarded without a transfer, for payments settled
    /// elsewhere.
    pub fn mark_submission_rewarded(&mut self, data_id: u64) -> (r: Result<(), RewardError>)
        requires
            old(self).wf(),
        ensures
            final(self).wf(),
            r == match lookup_submission(old(self).submissions@, data_id) {
                None => Err(RewardError::NotFound),
                Some(s) => if s.rewarded {
                    Err(RewardError::AlreadyRewarded)
                } else if old(self).in_flight@.contains(data_id) {
                    Err(RewardError::RewardInProgress)
                } else {
                    Ok(())
                },
            },
            r is Ok ==> final(self).submissions@ == mark_paid(old(self).submissions@, data_id),
            r is Err ==> final(self).submissions@ == old(self).submissions@,
            final(self).votes@ == old(self).votes@,
            final(self).challenges@ == old(self).challenges@,
            final(self).users@ == old(self).users@,
            final(self).in_flight@ == old(self).in_flight@,
    {
        let n = self.submissions.len();
        if data_id < 1 || data_id > n as u64 {
            return Err(RewardError::NotFound);
        }
        match self.submissions.get_submission(data_id) {
            Some(s) => {
                if s.rewarded {
                    return Err(RewardError::AlreadyRewarded);
                }
            },
            None => return Err(RewardError::NotFound),
        }
        if self.reserved(data_id).is_some() {
            return Err(RewardError::RewardInProgress);
        }
        let ghost before = self.submissions@;
        let _ = self.submissions.mark_rewarded(data_id);
        proof {
            assert(self.submissions@ =~= mark_paid(before, data_id));
            assert forall|k: int| 0 <= k < self.in_flight@.len() implies #[trigger] unrewarded(
                self.submissions@,
                self.in_flight@[k],
            ) by {
                assert(unrewarded(before, self.in_flight@[k]));
            }
        }
        Ok(())
    }

    /// First half of a ledger reward: checks that `data_id` may be rewarded,
    /// resolves the submitter's payout address, and reserves the submission
    /// so that no second reward can begin until `finish_reward`.
    pub fn begin_reward(&mut self, data_id: u64) -> (r: Result<TransferRequest, RewardError>)
        requires
            old(self).wf(),
        ensures
            final(self).wf(),
            match reward_gate(old(self).submissions@, old(self).votes@, old(self).in_flight@, data_id) {
                Some(e) => r == Err::<TransferRequest, RewardError>(e),
                None => {
                    let s = lookup_submission(old(self).submissions@, data_id)->0;
                    match payout_address(old(self).users@, s.user@) {
                        None => r == Err::<TransferRequest, RewardError>(RewardError::NoPayoutAddress),
                        Some(w) => if !principal_text_ok(w@) {
                            r == Err::<TransferRequest, RewardError>(RewardError::InvalidAddress)
                        } else {
                            match r {
                                Ok(req) => req.data_id == data_id && req.user_id == s.user
                                    && req.amount == REWARD_AMOUNT,
                                Err(_) => false,
                            }
                        },
                    }
                },
            },
            r is Ok ==> final(self).in_flight@ == old(self).in_flight@.push(data_id)
                && final(self).in_flight@.contains(data_id),
            r is Err ==> final(self).in_flight@ == old(self).in_flight@,
            final(self).submissions@ == old(self).submissions@,
            final(self).votes@ == old(self).votes@,
            final(self).challenges@ == old(self).challenges@,
            final(self).users@ == old(self).users@,
    {
        let sub = match self.check_reward(data_id) {
            Ok(s) => s,
            Err(e) => return Err(e),
        };
        let owner = match self.users.get_tg_user(&sub.user) {
            Some(u) => u,
            None => return Err(RewardError::NoPayoutAddress),
        };
        let address = match owner.wallet_address {
            Some(w) => w,
            None => return Err(RewardError::NoPayoutAddress),
        };
        let to = match parse_principal(address.as_str()) {
            Ok(p) => p,
            Err(_) => return Err(RewardError::InvalidAddress),
        };
        let ghost before = self.in_flight@;
        self.in_flight.push(data_id);
        proof {
            assert(self.in_flight@[before.len() as int] == data_id);
            assert forall|k: int| 0 <= k < self.in_flight@.len() implies #[trigger] unrewarded(
                self.submissions@,
                self.in_flight@[k],
            ) by {
                if k < before.len() {
                    assert(unrewarded(self.submissions@, before[k]));
                }
            }
            assert forall|a: int, b: int|
                0 <= a < self.in_flight@.len() && 0 <= b < self.in_flight@.len() && a != b
                    implies self.in_flight@[a] != self.in_flight@[b] by {
                if a == before.len() as int {
                    assert(!before.contains(data_id));
                    assert(before[b] != data_id);
                } else if b == before.len() as int {
                    assert(!before.contains(data_id));
                    assert(before[a] != data_id);
                }
            }
        }
        Ok(TransferRequest { data_id, user_id: sub.user, to, amount: REWARD_AMOUNT })
    }

    /// Second half of a ledger reward: releases the reservation of `data_id`
    /// and, if the transfer completed, marks the submission rewarded.
    pub fn finish_reward(&mut self, data_id: u64, outcome: TransferOutcome) -> (r: Result<
        RewardReceipt,
        RewardError,
    >)
        requires
            old(self).wf(),
        ensures
            final(self).wf(),
            !old(self).in_flight@.contains(data_id) ==> r == Err::<RewardReceipt, RewardError>(
                RewardError::NotReserved,
            ) && final(self).in_flight@ == old(self).in_flight@ && final(self).submissions@ == old(
                self,
            ).submissions@,
            old(self).in_flight@.contains(data_id) ==> !final(self).in_flight@.contains(data_id)
                && exists|k: int|
                0 <= k < old(self).in_flight@.len() && old(self).in_flight@[k] == data_id
                    && final(self).in_flight@ == old(self).in_flight@.remove(k),
            old(self).in_flight@.contains(data_id) ==> match outcome {
                TransferOutcome::Completed(block) => (match r {
                    Ok(receipt) => receipt.data_id == data_id && receipt.user_id == lookup_submission(
                        old(self).submissions@,
                        data_id,
                    )->0.user && receipt.block_index == block,
                    Err(_) => false,
                }) && final(self).submissions@ == mark_paid(old(self).submissions@, data_id),
                TransferOutcome::Refused(e) => r == Err::<RewardReceipt, RewardError>(
                    RewardError::TransferFailed(e),
                ) && final(self).submissions@ == old(self).submissions@,
                TransferOutcome::Unreachable(m) => r == Err::<RewardReceipt, RewardError>(
                    RewardError::CallFailed(m),
                ) && final(self).submissions@ == old(self).submissions@,
            },
            final(self).votes@ == old(self).votes@,
            final(self).challenges@ == old(self).challenges@,
            final(self).users@ == old(self).users@,
    {
        let k = match self.reserved(data_id) {
            Some(k) => k,
            None => return Err(RewardError::NotReserved),
        };
        let ghost flight0 = self.in_flight@;
        let ghost subs0 = self.submissions@;
        let _ = self.in_flight.remove(k);
        proof {
            assert(unrewarded(subs0, flight0[k as int]));
            assert forall|j: int| 0 <= j < self.in_flight@.len() implies self.in_flight@[j]
                != data_id by {
                let j0 = if j < k { j } else { j + 1 };
                assert(flight0[j0] != flight0[k as int]);
            }
            assert forall|a: int, b: int|
                0 <= a < self.in_flight@.len() && 0 <= b < self.in_flight@.len() && a != b
                    implies self.in_flight@[a] != self.in_flight@[b] by {
                let a0 = if a < k { a } else { a + 1 };
                let b0 = if b < k { b } else { b + 1 };
                assert(flight0[a0] != flight0[b0]);
            }
            assert forall|j: int| 0 <= j < self.in_flight@.len() implies #[trigger] unrewarded(
                subs0,
                self.in_flight@[j],
            ) by {
                let j0 = if j < k { j } else { j + 1 };
                assert(unrewarded(subs0, flight0[j0]));
            }
        }
        match outcome {
            TransferOutcome::Completed(block) => {
                let sub = match self.submissions.get_submission(data_id) {
                    Some(s) => s,
                    None => return Err(RewardError::NotFound),
                };
                let _ = self.submissions.mark_rewarded(data_id);
                proof {
                    assert(self.submissions@ =~= mark_paid(subs0, data_id));
                    assert forall|j: int| 0 <= j < self.in_flight@.len() implies #[trigger] unrewarded(
                        self.submissions@,
                        self.in_flight@[j],
                    ) by {
                        assert(unrewarded(subs0, self.in_flight@[j]));
                    }
                }
                Ok(RewardReceipt { data_id, user_id: sub.user, block_index: block })
            },
            TransferOutcome::Refused(e) => Err(RewardError::TransferFailed(e)),
            TransferOutcome::Unreachable(m) => Err(RewardError::CallFailed(m)),
        }
    }

    /// Reward without a ledger: credits the submitter's balance with
    /// `REWARD_TOKENS` (saturating) and marks the submission rewarded.
    /// Returns the new balance.
    pub fn reward_user(&mut self, data_id: u64) -> (r: Result<u64, RewardError>)
        requires
            old(self).wf(),
        ensures
            final(self).wf(),
            match reward_gate(old(self).submissions@, old(self).votes@, old(self).in_flight@, data_id) {
                Some(e) => r == Err::<u64, RewardError>(e) && final(self).submissions@ == old(
                    self,
                ).submissions@ && final(self).users@ == old(self).users@,
                None => {
                    let owner = lookup_submission(old(self).submissions@, data_id)->0.user@;
                    let b = balance_of(old(self).users@, owner) + REWARD_TOKENS;
                    &&& r == Ok::<u64, RewardError>(
                        if b > u64::MAX {
                            u64::MAX
                        } else {
                            b as u64
                        },
                    )
                    &&& balance_of(final(self).users@, owner) == r->Ok_0
                    &&& final(self).submissions@ == mark_paid(old(self).submissions@, data_id)
                },
            },
            final(self).votes@ == old(self).votes@,
            final(self).challenges@ == old(self).challenges@,
            final(self).in_flight@ == old(self).in_flight@,
    {
        let sub = match self.check_reward(data_id) {
            Ok(s) => s,
            Err(e) => return Err(e),
        };
        let balance = self.users.credit(&sub.user, REWARD_TOKENS);
        let ghost subs0 = self.submissions@;
        let _ = self.submissions.mark_rewarded(data_id);
        proof {
            assert(self.submissions@ =~= mark_paid(subs0, data_id));
            assert forall|j: int| 0 <= j < self.in_flight@.len() implies #[trigger] unrewarded(
                self.submissions@,
                self.in_flight@[j],
            ) by {
                assert(unrewarded(subs0, self.in_flight@[j]));
                assert(self.in_flight@[j] != data_id);
            }
        }
        Ok(balance)
    }
}

} // verus!
