//! The vote ledger: at most one vote per (user, submission) pair.
use vstd::prelude::*;

verus! {

/// One user's judgment on one submission: `vote_value` is true for valid.
pub struct Vote {
    pub user: String,
    pub data_id: u64,
    pub vote_value: bool,
}

/// Tally of one submission's votes.
pub struct VoteSummary {
    pub data_id: u64,
    pub upvotes: u64,
    pub downvotes: u64,
}

/// Why a vote operation was refused.
#[derive(PartialEq, Eq, Structural, Clone, Copy, Debug)]
pub enum VoteError {
    /// The submission voted on does not exist.
    SubmissionNotFound,
    /// The user already holds a vote on this submission.
    DuplicateVote,
    /// The user holds no vote on this submission.
    VoteNotFound,
}

pub open spec fn is_vote_of(v: Vote, user: Seq<char>, data_id: u64) -> bool {
    v.user@ == user && v.data_id == data_id
}

pub open spec fn has_vote(votes: Seq<Vote>, user: Seq<char>, data_id: u64) -> bool {
    exists|i: int| 0 <= i < votes.len() && #[trigger] is_vote_of(votes[i], user, data_id)
}

/// No two votes share a (user, submission) pair.
pub open spec fn unique_votes(votes: Seq<Vote>) -> bool {
    forall|i: int, j: int|
        0 <= i < votes.len() && 0 <= j < votes.len() && i != j && #[trigger] is_vote_of(
            votes[i],
            votes[j].user@,
            votes[j].data_id,
        ) ==> false
}

/// Number of votes on `data_id` whose value is `value`.
pub open spec fn count_votes(votes: Seq<Vote>, data_id: u64, value: bool) -> nat
    decreases votes.len(),
{
    if votes.len() == 0 {
        0
    } else {
        count_votes(votes.drop_last(), data_id, value) + if votes.last().data_id == data_id
            && votes.last().vote_value == value {
            1nat
        } else {
            0nat
        }
    }
}

/// The votes cast by `user`, in ledger order.
pub open spec fn votes_of_user(votes: Seq<Vote>, user: Seq<char>) -> Seq<Vote>
    decreases votes.len(),
{
    if votes.len() == 0 {
        Seq::empty()
    } else if votes.last().user@ == user {
        votes_of_user(votes.drop_last(), user).push(votes.last())
    } else {
        votes_of_user(votes.drop_last(), user)
    }
}

/// Valid votes win only by strict majority: a tie is not a win.
pub open spec fn majority_valid(votes: Seq<Vote>, data_id: u64) -> bool {
    count_votes(votes, data_id, true) > count_votes(votes, data_id, false)
}

/// What a vote becomes when its value is changed to `value`.
pub open spec fn revote(v: Vote, user: Seq<char>, data_id: u64, value: bool) -> Vote {
    if is_vote_of(v, user, data_id) {
        Vote { vote_value: value, ..v }
    } else {
        v
    }
}

/// The ledger and the answer that casting `v` on `votes` gives.
pub open spec fn cast_spec(votes: Seq<Vote>, v: Vote) -> (Seq<Vote>, Result<(), VoteError>) {
    if has_vote(votes, v.user@, v.data_id) {
        (votes, Err(VoteError::DuplicateVote))
    } else {
        (votes.push(v), Ok(()))
    }
}

/// In a ledger without duplicates, at most one vote exists for each
/// (user, submission) pair.
pub proof fn lemma_one_vote_per_pair(votes: Seq<Vote>, user: Seq<char>, data_id: u64, i: int, j: int)
    requires
        unique_votes(votes),
        0 <= i < votes.len(),
        0 <= j < votes.len(),
        is_vote_of(votes[i], user, data_id),
        is_vote_of(votes[j], user, data_id),
    ensures
        i == j,
{
    if i != j {
        assert(is_vote_of(votes[i], votes[j].user@, votes[j].data_id));
    }
}

/// Casting twice with the same user and submission: the second cast is
/// refused as a duplicate, whatever its value, and both tallies of the
/// submission stay as the first cast left them.
pub proof fn lemma_second_vote_refused(votes: Seq<Vote>, first: Vote, second: Vote)
    requires
        first.user@ == second.user@,
        first.data_id == second.data_id,
    ensures
        cast_spec(cast_spec(votes, first).0, second).1 == Err::<(), VoteError>(
            VoteError::DuplicateVote,
        ),
        cast_spec(cast_spec(votes, first).0, second).0 == cast_spec(votes, first).0,
        forall|b: bool|
            count_votes(cast_spec(cast_spec(votes, first).0, second).0, first.data_id, b)
                == count_votes(cast_spec(votes, first).0, first.data_id, b),
{
    let after = cast_spec(votes, first).0;
    if has_vote(votes, first.user@, first.data_id) {
        assert(after == votes);
    } else {
        let n = votes.len() as int;
        assert(after[n] == first);
        assert(is_vote_of(after[n], second.user@, second.data_id));
    }
}

pub proof fn lemma_count_votes_bounded(votes: Seq<Vote>, data_id: u64, value: bool)
    ensures
        count_votes(votes, data_id, value) <= votes.len(),
    decreases votes.len(),
{
    if votes.len() > 0 {
        lemma_count_votes_bounded(votes.drop_last(), data_id, value);
    }
}

pub proof fn lemma_count_votes_sum_bounded(votes: Seq<Vote>, data_id: u64)
    ensures
        count_votes(votes, data_id, true) + count_votes(votes, data_id, false) <= votes.len(),
    decreases votes.len(),
{
    if votes.len() > 0 {
        lemma_count_votes_sum_bounded(votes.drop_last(), data_id);
    }
}

pub struct VoteLedger {
    votes: Vec<Vote>,
}

impl View for VoteLedger {
    type V = Seq<Vote>;

    closed spec fn view(&self) -> Seq<Vote> {
        self.votes@
    }
}

impl VoteLedger {
    pub open spec fn wf(&self) -> bool {
        unique_votes(self@)
    }

    pub fn new() -> (r: VoteLedger)
        ensures
            r@ == Seq::<Vote>::empty(),
            r.wf(),
    {
        VoteLedger { votes: Vec::new() }
    }

    /// Position of the vote of `user` on `data_id`, if any.
    pub fn find(&self, user: &String, data_id: u64) -> (r: Option<usize>)
        ensures
            match r {
                Some(i) => i < self@.len() && is_vote_of(self@[i as int], user@, data_id),
                None => !has_vote(self@, user@, data_id),
            },
    {
        let mut i: usize = 0;
        while i < self.votes.len()
            invariant
                i <= self.votes@.len(),
                forall|k: int| 0 <= k < i ==> !#[trigger] is_vote_of(self.votes@[k], user@, data_id),
            decreases self.votes@.len() - i,
        {
            if self.votes[i].data_id == data_id && self.votes[i].user == *user {
                return Some(i);
            }
            i = i + 1;
        }
        None
    }

    pub fn has_vote(&self, user: &String, data_id: u64) -> (r: bool)
        ensures
            r == has_vote(self@, user@, data_id),
    {
        self.find(user, data_id).is_some()
    }

    /// Records a new vote; a second vote by the same user on the same
    /// submission is refused and leaves the ledger as it was.
    pub fn cast(&mut self, user: String, data_id: u64, vote_value: bool) -> (r: Result<(), VoteError>)
        requires
            old(self).wf(),
        ensures
            final(self).wf(),
            r is Ok <==> !has_vote(old(self)@, user@, data_id),
            r is Ok ==> final(self)@ == old(self)@.push(
                (Vote { user: user, data_id: data_id, vote_value: vote_value }),
            ),
            r is Err ==> r == Err::<(), VoteError>(VoteError::DuplicateVote) && final(self)@ == old(
                self,
            )@,
            (final(self)@, r) == cast_spec(
                old(self)@,
                (Vote { user: user, data_id: data_id, vote_value: vote_value }),
            ),
            has_vote(final(self)@, user@, data_id),
    {
        if self.has_vote(&user, data_id) {
            return Err(VoteError::DuplicateVote);
        }
        let ghost before = self.votes@;
        let ghost uview = user@;
        self.votes.push(Vote { user, data_id, vote_value });
        proof {
            let n = before.len() as int;
            assert(is_vote_of(self.votes@[n], uview, data_id));
            assert forall|i: int, j: int|
                0 <= i < self.votes@.len() && 0 <= j < self.votes@.len() && i != j
                    && #[trigger] is_vote_of(
                    self.votes@[i],
                    self.votes@[j].user@,
                    self.votes@[j].data_id,
                ) implies false by {
                if i == n {
                    assert(is_vote_of(before[j], self.votes@[n].user@, self.votes@[n].data_id));
                } else if j == n {
                    assert(is_vote_of(before[i], self.votes@[n].user@, self.votes@[n].data_id));
                } else {
                    assert(is_vote_of(before[i], before[j].user@, before[j].data_id));
                }
            }
        }
        Ok(())
    }

    /// Changes the value of an existing vote.
    pub fn update(&mut self, user: &String, data_id: u64, vote_value: bool) -> (r: Result<(), VoteError>)
        requires
            old(self).wf(),
        ensures
            final(self).wf(),
            r is Ok <==> has_vote(old(self)@, user@, data_id),
            r is Ok ==> final(self)@ == old(self)@.map_values(
                |v: Vote| revote(v, user@, data_id, vote_value),
            ),
            r is Err ==> r == Err::<(), VoteError>(VoteError::VoteNotFound) && final(self)@ == old(
                self,
            )@,
    {
        match self.find(user, data_id) {
            None => Err(VoteError::VoteNotFound),
            Some(i) => {
                let ghost before = self.votes@;
                let owner = self.votes[i].user.clone();
                self.votes.set(i, Vote { user: owner, data_id, vote_value });
                proof {
                    let expect = before.map_values(|v: Vote| revote(v, user@, data_id, vote_value));
                    assert forall|k: int| 0 <= k < before.len() implies self.votes@[k]
                        == expect[k] by {
                        if k != i {
                            if is_vote_of(before[k], user@, data_id) {
                                assert(is_vote_of(before[k], before[i as int].user@, before[i as int].data_id));
                            }
                        }
                    }
                    assert(self.votes@ =~= expect);
                    assert forall|a: int, b: int|
                        0 <= a < self.votes@.len() && 0 <= b < self.votes@.len() && a != b
                            && #[trigger] is_vote_of(
                            self.votes@[a],
                            self.votes@[b].user@,
                            self.votes@[b].data_id,
                        ) implies false by {
                        assert(is_vote_of(before[a], before[b].user@, before[b].data_id));
                    }
                }
                Ok(())
            },
        }
    }

    /// Removes the vote of `user` on `data_id`.
    pub fn delete(&mut self, user: &String, data_id: u64) -> (r: Result<(), VoteError>)
        requires
            old(self).wf(),
        ensures
            final(self).wf(),
            r is Ok <==> has_vote(old(self)@, user@, data_id),
            r is Ok ==> exists|i: int|
                0 <= i < old(self)@.len() && #[trigger] is_vote_of(old(self)@[i], user@, data_id)
                    && final(self)@ == old(self)@.remove(i),
            r is Ok ==> !has_vote(final(self)@, user@, data_id),
            r is Err ==> r == Err::<(), VoteError>(VoteError::VoteNotFound) && final(self)@ == old(
                self,
            )@,
    {
        match self.find(user, data_id) {
            None => Err(VoteError::VoteNotFound),
            Some(i) => {
                let ghost before = self.votes@;
                let _ = self.votes.remove(i);
                proof {
                    assert(is_vote_of(before[i as int], user@, data_id));
                    assert forall|a: int, b: int|
                        0 <= a < self.votes@.len() && 0 <= b < self.votes@.len() && a != b
                            && #[trigger] is_vote_of(
                            self.votes@[a],
                            self.votes@[b].user@,
                            self.votes@[b].data_id,
                        ) implies false by {
                        let a0 = if a < i { a } else { a + 1 };
                        let b0 = if b < i { b } else { b + 1 };
                        assert(is_vote_of(before[a0], before[b0].user@, before[b0].data_id));
                    }
                    assert forall|k: int| 0 <= k < self.votes@.len() implies !#[trigger] is_vote_of(
                        self.votes@[k],
                        user@,
                        data_id,
                    ) by {
                        let k0 = if k < i { k } else { k + 1 };
                        if is_vote_of(before[k0], user@, data_id) {
                            assert(is_vote_of(before[k0], before[i as int].user@, before[i as int].data_id));
                        }
                    }
                }
                Ok(())
            },
        }
    }

    /// Valid and invalid counts of the votes on `data_id`.
    pub fn tally(&self, data_id: u64) -> (r: VoteSummary)
        ensures
            r.data_id == data_id,
            r.upvotes == count_votes(self@, data_id, true),
            r.downvotes == count_votes(self@, data_id, false),
            r.upvotes + r.downvotes <= self@.len(),
            self@.len() <= u64::MAX,
    {
        let mut up: u64 = 0;
        let mut down: u64 = 0;
        let mut i: usize = 0;
        while i < self.votes.len()
            invariant
                i <= self.votes@.len(),
                up == count_votes(self.votes@.subrange(0, i as int), data_id, true),
                down == count_votes(self.votes@.subrange(0, i as int), data_id, false),
            decreases self.votes@.len() - i,
        {
            let ghost prefix = self.votes@.subrange(0, i as int + 1);
            proof {
                assert(prefix.drop_last() =~= self.votes@.subrange(0, i as int));
                lemma_count_votes_bounded(prefix, data_id, true);
                lemma_count_votes_bounded(prefix, data_id, false);
            }
            if self.votes[i].data_id == data_id {
                if self.votes[i].vote_value {
                    up = up + 1;
                } else {
                    down = down + 1;
                }
            }
            i = i + 1;
        }
        assert(self.votes@.subrange(0, self.votes@.len() as int) =~= self.votes@);
        let _ = self.votes.len();
        proof {
            lemma_count_votes_sum_bounded(self.votes@, data_id);
        }
        VoteSummary { data_id, upvotes: up, downvotes: down }
    }

    /// The votes that `user` has cast, in ledger order.
    pub fn get_votes_by_user(&self, user: &String) -> (r: Vec<Vote>)
        ensures
            r@ == votes_of_user(self@, user@),
    {
        let mut out: Vec<Vote> = Vec::new();
        let mut i: usize = 0;
        while i < self.votes.len()
            invariant
                i <= self.votes@.len(),
                out@ == votes_of_user(self.votes@.subrange(0, i as int), user@),
            decreases self.votes@.len() - i,
        {
            proof {
                assert(self.votes@.subrange(0, i as int + 1).drop_last() =~= self.votes@.subrange(
                    0,
                    i as int,
                ));
            }
            if self.votes[i].user == *user {
                let v = Vote {
                    user: self.votes[i].user.clone(),
                    data_id: self.votes[i].data_id,
                    vote_value: self.votes[i].vote_value,
                };
                out.push(v);
            }
            i = i + 1;
        }
        assert(self.votes@.subrange(0, self.votes@.len() as int) =~= self.votes@);
        out
    }
}

} // verus!
