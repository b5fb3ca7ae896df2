//! Ranking of voted submissions.
use vstd::prelude::*;
use crate::dao::Dao;
use crate::votes::{count_votes, Vote, VoteSummary};

verus! {

/// How many entries a leaderboard holds at most.
pub const LEADERBOARD_SIZE: usize = 10;

/// The ranking metric of `data_id`: its valid votes, or all its votes.
pub open spec fn metric(votes: Seq<Vote>, data_id: u64, by_upvotes: bool) -> nat {
    if by_upvotes {
        count_votes(votes, data_id, true)
    } else {
        count_votes(votes, data_id, true) + count_votes(votes, data_id, false)
    }
}

/// `a` ranks above `b`: a higher metric, or an equal one and a smaller id.
pub open spec fn ranks_before(votes: Seq<Vote>, a: u64, b: u64, by_upvotes: bool) -> bool {
    metric(votes, a, by_upvotes) > metric(votes, b, by_upvotes) || (metric(votes, a, by_upvotes)
        == metric(votes, b, by_upvotes) && a < b)
}

/// A submission, among the first `n`, that has at least one vote.
pub open spec fn on_board(votes: Seq<Vote>, n: nat, data_id: u64) -> bool {
    1 <= data_id <= n && count_votes(votes, data_id, true) + count_votes(votes, data_id, false) > 0
}

pub open spec fn listed(board: Seq<VoteSummary>, data_id: u64) -> bool {
    exists|i: int| 0 <= i < board.len() && (#[trigger] board[i]).data_id == data_id
}

/// `board` is the leaderboard of the first `n` submissions: each entry is
/// the tally of a voted submission, entries are in rank order, and a voted
/// submission is left out only when the board is full of entries that rank
/// above it.
pub open spec fn is_leaderboard(board: Seq<VoteSummary>, votes: Seq<Vote>, n: nat, by_upvotes: bool) -> bool {
    &&& board.len() <= LEADERBOARD_SIZE
    &&& forall|i: int|
        0 <= i < board.len() ==> on_board(votes, n, (#[trigger] board[i]).data_id)
            && board[i].upvotes == count_votes(votes, board[i].data_id, true)
            && board[i].downvotes == count_votes(votes, board[i].data_id, false)
    &&& forall|i: int, j: int|
        0 <= i < j < board.len() ==> ranks_before(
            votes,
            (#[trigger] board[i]).data_id,
            (#[trigger] board[j]).data_id,
            by_upvotes,
        )
    &&& forall|d: u64|
        #![trigger on_board(votes, n, d)]
        on_board(votes, n, d) && !listed(board, d) ==> board.len() == LEADERBOARD_SIZE && forall|
            i: int,
        |
            0 <= i < board.len() ==> ranks_before(votes, (#[trigger] board[i]).data_id, d, by_upvotes)
}

impl Dao {
    /// The leaderboard of all submissions, ranked by valid votes when
    /// `by_upvotes` holds, else by all votes.
    pub fn leaderboard(&self, by_upvotes: bool) -> (r: Vec<VoteSummary>)
        requires
            self.votes.wf(),
        ensures
            is_leaderboard(r@, self.votes@, self.submissions@.len(), by_upvotes),
    {
        let n = self.submissions.len() as u64;
        let ghost votes = self.votes@;
        let ghost nn = self.submissions@.len();
        let mut board: Vec<VoteSummary> = Vec::new();
        while board.len() < LEADERBOARD_SIZE
            invariant
                n == nn,
                nn == self.submissions@.len(),
                votes == self.votes@,
                board@.len() <= LEADERBOARD_SIZE,
                board@.len() > 0 ==> votes.len() <= u64::MAX,
                forall|i: int|
                    0 <= i < board@.len() ==> on_board(votes, nn, (#[trigger] board@[i]).data_id)
                        && board@[i].upvotes == count_votes(votes, board@[i].data_id, true)
                        && board@[i].downvotes == count_votes(votes, board@[i].data_id, false),
                forall|i: int, j: int|
                    0 <= i < j < board@.len() ==> ranks_before(
                        votes,
                        (#[trigger] board@[i]).data_id,
                        (#[trigger] board@[j]).data_id,
                        by_upvotes,
                    ),
                forall|d: u64|
                    #![trigger on_board(votes, nn, d)]
                    on_board(votes, nn, d) && !listed(board@, d) ==> forall|i: int|
                        0 <= i < board@.len() ==> ranks_before(
                            votes,
                            (#[trigger] board@[i]).data_id,
                            d,
                            by_upvotes,
                        ),
            decreases LEADERBOARD_SIZE - board@.len(),
        {
            let ghost b0 = board@;
            let has_last = board.len() > 0;
            let mut last_id: u64 = 0;
            let mut last_metric: u64 = 0;
            if has_last {
                let l = &board[board.len() - 1];
                proof {
                    crate::votes::lemma_count_votes_sum_bounded(votes, l.data_id);
                }
                last_id = l.data_id;
                last_metric = if by_upvotes { l.upvotes } else { l.upvotes + l.downvotes };
            }
            let mut best: Option<VoteSummary> = None;
            let mut best_metric: u64 = 0;
            let mut k: u64 = 0;
            while k < n
                invariant
                    n == nn,
                    votes == self.votes@,
                    board@ == b0,
                    k <= n,
                    best is Some ==> votes.len() <= u64::MAX,
                    has_last == (b0.len() > 0),
                    has_last ==> last_id == b0.last().data_id && last_metric == metric(
                        votes,
                        last_id,
                        by_upvotes,
                    ),
                    match best {
                        None => forall|e: u64|
                            1 <= e <= k && on_board(votes, nn, e) ==> has_last && !ranks_before(
                                votes,
                                last_id,
                                e,
                                by_upvotes,
                            ),
                        Some(b) => {
                            &&& 1 <= b.data_id <= k
                            &&& on_board(votes, nn, b.data_id)
                            &&& (has_last ==> ranks_before(votes, last_id, b.data_id, by_upvotes))
                            &&& b.upvotes == count_votes(votes, b.data_id, true)
                            &&& b.downvotes == count_votes(votes, b.data_id, false)
                            &&& best_metric == metric(votes, b.data_id, by_upvotes)
                            &&& forall|e: u64|
                                1 <= e <= k && on_board(votes, nn, e) && (has_last ==> ranks_before(
                                    votes,
                                    last_id,
                                    e,
                                    by_upvotes,
                                )) ==> e == b.data_id || ranks_before(
                                    votes,
                                    b.data_id,
                                    e,
                                    by_upvotes,
                                )
                        },
                    },
                decreases n - k,
            {
                let id = k + 1;
                let s = self.votes.tally(id);
                let m = if by_upvotes { s.upvotes } else { s.upvotes + s.downvotes };
                let voted = s.upvotes + s.downvotes > 0;
                let after_last = !has_last || m < last_metric || (m == last_metric && last_id < id);
                if voted && after_last {
                    let better = match &best {
                        None => true,
                        Some(_) => m > best_metric,
                    };
                    if better {
                        best = Some(s);
                        best_metric = m;
                    }
                }
                k = id;
            }
            match best {
                None => {
                    proof {
                        assert forall|d: u64| on_board(votes, nn, d) implies listed(b0, d) by {
                            if !listed(b0, d) {
                                if b0.len() > 0 {
                                    let li = b0.len() - 1;
                                    assert(ranks_before(votes, b0[li].data_id, d, by_upvotes));
                                }
                            }
                        }
                    }
                    return board;
                },
                Some(b) => {
                    let ghost bid = b.data_id;
                    board.push(b);
                    proof {
                        assert(board@[b0.len() as int].data_id == bid);
                        assert forall|i: int, j: int|
                            0 <= i < j < board@.len() implies ranks_before(
                                votes,
                                (#[trigger] board@[i]).data_id,
                                (#[trigger] board@[j]).data_id,
                                by_upvotes,
                            ) by {
                            if j == b0.len() as int && i < j - 1 {
                                assert(ranks_before(
                                    votes,
                                    b0[i].data_id,
                                    b0[b0.len() - 1].data_id,
                                    by_upvotes,
                                ));
                            }
                        }
                        assert forall|d: u64|
                            #![trigger on_board(votes, nn, d)]
                            on_board(votes, nn, d) && !listed(board@, d) implies forall|i: int|
                                0 <= i < board@.len() ==> ranks_before(
                                    votes,
                                    (#[trigger] board@[i]).data_id,
                                    d,
                                    by_upvotes,
                                ) by {
                            assert(!listed(b0, d)) by {
                                if listed(b0, d) {
                                    let i = choose|i: int|
                                        0 <= i < b0.len() && (#[trigger] b0[i]).data_id == d;
                                    assert(board@[i].data_id == d);
                                }
                            }
                            assert(d != bid) by {
                                assert(board@[b0.len() as int].data_id == bid);
                            }
                            if b0.len() > 0 {
                                assert(ranks_before(votes, b0[b0.len() - 1].data_id, d, by_upvotes));
                            }
                        }
                    }
                },
            }
        }
        board
    }

    /// The leaderboard ranked by all votes.
    pub fn get_leaderboard_by_total_votes(&self) -> (r: Vec<VoteSummary>)
        requires
            self.votes.wf(),
        ensures
            is_leaderboard(r@, self.votes@, self.submissions@.len(), false),
    {
        self.leaderboard(false)
    }

    /// The leaderboard ranked by valid votes.
    pub fn get_leaderboard_by_upvotes(&self) -> (r: Vec<VoteSummary>)
        requires
            self.votes.wf(),
        ensures
            is_leaderboard(r@, self.votes@, self.submissions@.len(), true),
    {
        self.leaderboard(true)
    }
}

} // verus!
