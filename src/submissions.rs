//! The submission store: observation records and their lifecycle.
use vstd::prelude::*;
use crate::external::{lower_of, lowercase};

verus! {

/// Nanoseconds in one second.
pub const SECOND_NS: u64 = 1_000_000_000;

/// How long an ordinary submission stays open for votes, in nanoseconds.
pub const SUBMISSION_TTL_NS: u64 = 900_000_000_000;

/// How long a submission made under a challenge stays open, in nanoseconds.
pub const CHALLENGE_SUBMISSION_TTL_NS: u64 = 300_000_000_000;

/// Lifecycle of a submission: it only moves from `Open` to `Pending` or
/// `Expired`, and from there to `Paid`.
#[derive(PartialEq, Eq, Structural, Clone, Copy, Debug)]
pub enum PostStatus {
    Open,
    Pending,
    Paid,
    Expired,
}

/// The observation itself. Coordinates are in units of 1e-7 degree and the
/// temperature in thousandths of a degree Celsius.
pub struct WeatherReading {
    pub latitude_e7: i64,
    pub longitude_e7: i64,
    pub city: String,
    pub temperature_mc: i64,
    pub weather: String,
    pub timestamp: u64,
    pub submission_photo_url: String,
}

pub struct UserSubmission {
    pub data_id: u64,
    pub user: String,
    pub data: WeatherReading,
    pub rewarded: bool,
    pub status: PostStatus,
    pub expiration_timestamp: u64,
}

/// Where one submission was made, and how it stands.
pub struct SubmissionLocationInfo {
    pub data_id: u64,
    pub latitude_e7: i64,
    pub longitude_e7: i64,
    pub status: PostStatus,
}

/// City and status of one submission.
pub struct UserSubmissionSummary {
    pub data_id: u64,
    pub city: String,
    pub status: PostStatus,
}

/// When one submission's voting window closes.
pub struct ExpirationInfo {
    pub data_id: u64,
    pub expiration_timestamp: u64,
}

/// Why a submission operation was refused.
#[derive(PartialEq, Eq, Structural, Clone, Copy, Debug)]
pub enum SubmissionError {
    /// No submission has this id.
    NotFound,
    /// The submission was rewarded already.
    AlreadyRewarded,
}

/// Ids are 1, 2, 3, ... in order of creation, and a rewarded submission is paid.
pub open spec fn submissions_wf(s: Seq<UserSubmission>) -> bool {
    &&& forall|i: int| 0 <= i < s.len() ==> (#[trigger] s[i]).data_id == i + 1
    &&& forall|i: int| 0 <= i < s.len() && (#[trigger] s[i]).rewarded ==> s[i].status
        == PostStatus::Paid
}

/// In a well-formed store, a rewarded submission is paid.
pub proof fn lemma_rewarded_is_paid(s: Seq<UserSubmission>, data_id: u64)
    requires
        submissions_wf(s),
        lookup_submission(s, data_id) is Some,
        lookup_submission(s, data_id)->0.rewarded,
    ensures
        lookup_submission(s, data_id)->0.status == PostStatus::Paid,
{
    assert(s[data_id - 1].rewarded);
}

pub open spec fn lookup_submission(s: Seq<UserSubmission>, data_id: u64) -> Option<UserSubmission> {
    if 1 <= data_id <= s.len() {
        Some(s[data_id - 1])
    } else {
        None
    }
}

/// The submissions of `s` that satisfy `p`, in order.
pub open spec fn select(s: Seq<UserSubmission>, p: spec_fn(UserSubmission) -> bool) -> Seq<
    UserSubmission,
>
    decreases s.len(),
{
    if s.len() == 0 {
        Seq::empty()
    } else if p(s.last()) {
        select(s.drop_last(), p).push(s.last())
    } else {
        select(s.drop_last(), p)
    }
}

/// Which submissions a query selects.
pub enum SubmissionFilter {
    /// Those of one user.
    ByUser(String),
    /// The rewarded ones of one user.
    RewardedOfUser(String),
    /// Those whose city, lowercased, is this text.
    ByLowercaseCity(String),
}

impl SubmissionFilter {
    pub open spec fn holds(&self, sub: UserSubmission) -> bool {
        match self {
            SubmissionFilter::ByUser(u) => sub.user@ == u@,
            SubmissionFilter::RewardedOfUser(u) => sub.user@ == u@ && sub.rewarded,
            SubmissionFilter::ByLowercaseCity(c) => lower_of(sub.data.city@) == c@,
        }
    }

    pub open spec fn pred(&self) -> spec_fn(UserSubmission) -> bool {
        |sub: UserSubmission| self.holds(sub)
    }

    pub fn matches(&self, sub: &UserSubmission) -> (r: bool)
        ensures
            r == self.holds(*sub),
    {
        match self {
            SubmissionFilter::ByUser(u) => sub.user == *u,
            SubmissionFilter::RewardedOfUser(u) => sub.user == *u && sub.rewarded,
            SubmissionFilter::ByLowercaseCity(c) => lowercase(sub.data.city.as_str()) == *c,
        }
    }
}

pub open spec fn location_of(s: UserSubmission) -> SubmissionLocationInfo {
    SubmissionLocationInfo {
        data_id: s.data_id,
        latitude_e7: s.data.latitude_e7,
        longitude_e7: s.data.longitude_e7,
        status: s.status,
    }
}

pub open spec fn summary_of(s: UserSubmission) -> UserSubmissionSummary {
    UserSubmissionSummary { data_id: s.data_id, city: s.data.city, status: s.status }
}

pub open spec fn expiration_of(s: UserSubmission) -> ExpirationInfo {
    ExpirationInfo { data_id: s.data_id, expiration_timestamp: s.expiration_timestamp }
}

impl WeatherReading {
    pub fn duplicate(&self) -> (r: WeatherReading)
        ensures
            r == *self,
    {
        WeatherReading {
            latitude_e7: self.latitude_e7,
            longitude_e7: self.longitude_e7,
            city: self.city.clone(),
            temperature_mc: self.temperature_mc,
            weather: self.weather.clone(),
            timestamp: self.timestamp,
            submission_photo_url: self.submission_photo_url.clone(),
        }
    }
}

impl UserSubmission {
    pub fn duplicate(&self) -> (r: UserSubmission)
        ensures
            r == *self,
    {
        UserSubmission {
            data_id: self.data_id,
            user: self.user.clone(),
            data: self.data.duplicate(),
            rewarded: self.rewarded,
            status: self.status,
            expiration_timestamp: self.expiration_timestamp,
        }
    }
}

/// Why a backup could not be restored.
#[derive(PartialEq, Eq, Structural, Clone, Copy, Debug)]
pub enum RestoreError {
    /// The entry at this position does not carry the key that ids in order
    /// of creation give it.
    KeyOutOfOrder(u64),
    /// Two entries carry the same key.
    DuplicateKey(u64),
}

/// Backup entries are keyed 1, 2, 3, ... in order.
pub open spec fn keys_in_order(backup: Seq<(u64, UserSubmission)>) -> bool {
    forall|i: int| 0 <= i < backup.len() ==> (#[trigger] backup[i]).0 == i + 1
}

/// A backup entry as restored: its id is its key, and a rewarded record is
/// paid.
pub open spec fn restored_submission(entry: (u64, UserSubmission)) -> UserSubmission {
    UserSubmission {
        data_id: entry.0,
        status: if entry.1.rewarded {
            PostStatus::Paid
        } else {
            entry.1.status
        },
        ..entry.1
    }
}

pub struct SubmissionStore {
    subs: Vec<UserSubmission>,
}

impl View for SubmissionStore {
    type V = Seq<UserSubmission>;

    closed spec fn view(&self) -> Seq<UserSubmission> {
        self.subs@
    }
}

impl SubmissionStore {
    pub open spec fn wf(&self) -> bool {
        submissions_wf(self@)
    }

    pub fn new() -> (r: SubmissionStore)
        ensures
            r@ == Seq::<UserSubmission>::empty(),
            r.wf(),
    {
        SubmissionStore { subs: Vec::new() }
    }

    /// Rebuilds a store from `(key, record)` entries in key order.
    pub fn from_backup(backup: Vec<(u64, UserSubmission)>) -> (r: Result<SubmissionStore, RestoreError>)
        ensures
            r is Ok <==> keys_in_order(backup@),
            match r {
                Ok(store) => store.wf() && store@ == backup@.map_values(
                    |e: (u64, UserSubmission)| restored_submission(e),
                ),
                Err(RestoreError::KeyOutOfOrder(i)) => i < backup@.len() && backup@[i as int].0 != i
                    + 1,
                Err(_) => false,
            },
    {
        let mut subs: Vec<UserSubmission> = Vec::new();
        let mut i: usize = 0;
        while i < backup.len()
            invariant
                i <= backup@.len(),
                forall|k: int| 0 <= k < i ==> (#[trigger] backup@[k]).0 == k + 1,
                subs@ == backup@.subrange(0, i as int).map_values(
                    |e: (u64, UserSubmission)| restored_submission(e),
                ),
                submissions_wf(subs@),
            decreases backup@.len() - i,
        {
            let key = backup[i].0;
            if key != i as u64 + 1 {
                return Err(RestoreError::KeyOutOfOrder(i as u64));
            }
            let mut rec = backup[i].1.duplicate();
            rec.data_id = key;
            if rec.rewarded {
                rec.status = PostStatus::Paid;
            }
            subs.push(rec);
            i = i + 1;
            assert(subs@ =~= backup@.subrange(0, i as int).map_values(
                |e: (u64, UserSubmission)| restored_submission(e),
            ));
        }
        assert(backup@.subrange(0, backup@.len() as int) =~= backup@);
        Ok(SubmissionStore { subs })
    }

    pub fn len(&self) -> (r: usize)
        ensures
            r == self@.len(),
    {
        self.subs.len()
    }

    /// Stores a new open, unrewarded submission under the next id and returns
    /// that id.
    pub fn insert_new(&mut self, user: String, data: WeatherReading, expiration_timestamp: u64) -> (r: u64)
        requires
            old(self).wf(),
            old(self)@.len() < u64::MAX,
        ensures
            final(self).wf(),
            r == old(self)@.len() + 1,
            final(self)@ == old(self)@.push(
                (UserSubmission {
                    data_id: r,
                    user: user,
                    data: data,
                    rewarded: false,
                    status: PostStatus::Open,
                    expiration_timestamp: expiration_timestamp,
                }),
            ),
    {
        let data_id = self.subs.len() as u64 + 1;
        self.subs.push(
            UserSubmission {
                data_id,
                user,
                data,
                rewarded: false,
                status: PostStatus::Open,
                expiration_timestamp,
            },
        );
        data_id
    }

    pub fn get_submission(&self, data_id: u64) -> (r: Option<UserSubmission>)
        requires
            self.wf(),
        ensures
            r == lookup_submission(self@, data_id),
    {
        if 1 <= data_id && data_id <= self.subs.len() as u64 {
            Some(self.subs[(data_id - 1) as usize].duplicate())
        } else {
            None
        }
    }

    pub fn get_post_status(&self, data_id: u64) -> (r: Option<PostStatus>)
        requires
            self.wf(),
        ensures
            r == match lookup_submission(self@, data_id) {
                Some(s) => Some(s.status),
                None => None::<PostStatus>,
            },
    {
        if 1 <= data_id && data_id <= self.subs.len() as u64 {
            Some(self.subs[(data_id - 1) as usize].status)
        } else {
            None
        }
    }

    pub fn get_expiration_time(&self, data_id: u64) -> (r: Option<u64>)
        requires
            self.wf(),
        ensures
            r == match lookup_submission(self@, data_id) {
                Some(s) => Some(s.expiration_timestamp),
                None => None::<u64>,
            },
    {
        if 1 <= data_id && data_id <= self.subs.len() as u64 {
            Some(self.subs[(data_id - 1) as usize].expiration_timestamp)
        } else {
            None
        }
    }

    /// Moves an open submission to its finalized status.
    pub fn set_final_status(&mut self, data_id: u64, status: PostStatus)
        requires
            old(self).wf(),
            lookup_submission(old(self)@, data_id) is Some,
            lookup_submission(old(self)@, data_id)->0.status == PostStatus::Open,
        ensures
            final(self).wf(),
            final(self)@ == old(self)@.update(
                data_id - 1,
                (UserSubmission { status: status, ..old(self)@[data_id - 1] }),
            ),
    {
        let n = self.subs.len();
        assert(1 <= data_id <= n);
        let i = (data_id - 1) as usize;
        let mut s = self.subs[i].duplicate();
        s.status = status;
        self.subs.set(i, s);
    }

    /// Marks a submission rewarded, which also makes it paid.
    pub fn mark_rewarded(&mut self, data_id: u64) -> (r: Result<(), SubmissionError>)
        requires
            old(self).wf(),
        ensures
            final(self).wf(),
            r == match lookup_submission(old(self)@, data_id) {
                None => Err(SubmissionError::NotFound),
                Some(s) => if s.rewarded {
                    Err(SubmissionError::AlreadyRewarded)
                } else {
                    Ok(())
                },
            },
            r is Ok ==> final(self)@ == old(self)@.update(
                data_id - 1,
                (UserSubmission {
                    rewarded: true,
                    status: PostStatus::Paid,
                    ..old(self)@[data_id - 1]
                }),
            ),
            r is Err ==> final(self)@ == old(self)@,
    {
        if data_id < 1 || data_id > self.subs.len() as u64 {
            return Err(SubmissionError::NotFound);
        }
        let i = (data_id - 1) as usize;
        if self.subs[i].rewarded {
            return Err(SubmissionError::AlreadyRewarded);
        }
        let mut s = self.subs[i].duplicate();
        s.rewarded = true;
        s.status = PostStatus::Paid;
        self.subs.set(i, s);
        Ok(())
    }

    /// All submissions, in id order.
    pub fn get_all_submissions(&self) -> (r: Vec<UserSubmission>)
        ensures
            r@ == self@,
    {
        let mut out: Vec<UserSubmission> = Vec::new();
        let mut i: usize = 0;
        while i < self.subs.len()
            invariant
                i <= self.subs@.len(),
                out@ == self.subs@.subrange(0, i as int),
            decreases self.subs@.len() - i,
        {
            out.push(self.subs[i].duplicate());
            i = i + 1;
            assert(out@ =~= self.subs@.subrange(0, i as int));
        }
        assert(self.subs@.subrange(0, self.subs@.len() as int) =~= self.subs@);
        out
    }

    /// The submissions that `filter` selects, in id order.
    pub fn select(&self, filter: &SubmissionFilter) -> (r: Vec<UserSubmission>)
        ensures
            r@ == select(self@, filter.pred()),
    {
        let mut out: Vec<UserSubmission> = Vec::new();
        let mut i: usize = 0;
        while i < self.subs.len()
            invariant
                i <= self.subs@.len(),
                out@ == select(self.subs@.subrange(0, i as int), filter.pred()),
            decreases self.subs@.len() - i,
        {
            proof {
                assert(self.subs@.subrange(0, i as int + 1).drop_last() =~= self.subs@.subrange(
                    0,
                    i as int,
                ));
            }
            if filter.matches(&self.subs[i]) {
                out.push(self.subs[i].duplicate());
            }
            i = i + 1;
        }
        assert(self.subs@.subrange(0, self.subs@.len() as int) =~= self.subs@);
        out
    }

    /// The submissions of `user_id`.
    pub fn get_user_posts(&self, user_id: &String) -> (r: Vec<UserSubmission>)
        ensures
            r@ == select(self@, |s: UserSubmission| s.user@ == user_id@),
    {
        let f = SubmissionFilter::ByUser(user_id.clone());
        let r = self.select(&f);
        assert(f.pred() == (|s: UserSubmission| s.user@ == user_id@));
        r
    }

    /// The rewarded submissions of `user_id`.
    pub fn get_rewarded_submissions(&self, user_id: &String) -> (r: Vec<UserSubmission>)
        ensures
            r@ == select(self@, |s: UserSubmission| s.user@ == user_id@ && s.rewarded),
    {
        let f = SubmissionFilter::RewardedOfUser(user_id.clone());
        let r = self.select(&f);
        assert(f.pred() == (|s: UserSubmission| s.user@ == user_id@ && s.rewarded));
        r
    }

    /// The submissions whose city equals `city` when both are lowercased.
    pub fn get_submissions_by_city(&self, city: &String) -> (r: Vec<UserSubmission>)
        ensures
            r@ == select(
                self@,
                |s: UserSubmission| lower_of(s.data.city@) == lower_of(city@),
            ),
    {
        let folded = lowercase(city.as_str());
        let f = SubmissionFilter::ByLowercaseCity(folded);
        let r = self.select(&f);
        assert(f.pred() == (|s: UserSubmission| lower_of(s.data.city@) == lower_of(city@)));
        r
    }

    /// Where each submission of `user_id` was made.
    pub fn get_user_submission_locations(&self, user_id: &String) -> (r: Vec<SubmissionLocationInfo>)
        ensures
            r@ == select(self@, |s: UserSubmission| s.user@ == user_id@).map_values(
                |s: UserSubmission| location_of(s),
            ),
    {
        let posts = self.get_user_posts(user_id);
        let mut out: Vec<SubmissionLocationInfo> = Vec::new();
        let mut i: usize = 0;
        while i < posts.len()
            invariant
                i <= posts@.len(),
                out@ == posts@.subrange(0, i as int).map_values(|s: UserSubmission| location_of(s)),
            decreases posts@.len() - i,
        {
            let p = &posts[i];
            out.push(
                SubmissionLocationInfo {
                    data_id: p.data_id,
                    latitude_e7: p.data.latitude_e7,
                    longitude_e7: p.data.longitude_e7,
                    status: p.status,
                },
            );
            i = i + 1;
            assert(out@ =~= posts@.subrange(0, i as int).map_values(
                |s: UserSubmission| location_of(s),
            ));
        }
        assert(posts@.subrange(0, posts@.len() as int) =~= posts@);
        out
    }

    /// City and status of each submission of `user_id`.
    pub fn get_user_submission_summary(&self, user_id: &String) -> (r: Vec<UserSubmissionSummary>)
        ensures
            r@ == select(self@, |s: UserSubmission| s.user@ == user_id@).map_values(
                |s: UserSubmission| summary_of(s),
            ),
    {
        let posts = self.get_user_posts(user_id);
        let mut out: Vec<UserSubmissionSummary> = Vec::new();
        let mut i: usize = 0;
        while i < posts.len()
            invariant
                i <= posts@.len(),
                out@ == posts@.subrange(0, i as int).map_values(|s: UserSubmission| summary_of(s)),
            decreases posts@.len() - i,
        {
            let p = &posts[i];
            out.push(
                UserSubmissionSummary {
                    data_id: p.data_id,
                    city: p.data.city.clone(),
                    status: p.status,
                },
            );
            i = i + 1;
            assert(out@ =~= posts@.subrange(0, i as int).map_values(
                |s: UserSubmission| summary_of(s),
            ));
        }
        assert(posts@.subrange(0, posts@.len() as int) =~= posts@);
        out
    }

    /// When each submission's voting window closes, in id order.
    pub fn get_all_expiration_times(&self) -> (r: Vec<ExpirationInfo>)
        ensures
            r@ == self@.map_values(|s: UserSubmission| expiration_of(s)),
    {
        let mut out: Vec<ExpirationInfo> = Vec::new();
        let mut i: usize = 0;
        while i < self.subs.len()
            invariant
                i <= self.subs@.len(),
                out@ == self.subs@.subrange(0, i as int).map_values(
                    |s: UserSubmission| expiration_of(s),
                ),
            decreases self.subs@.len() - i,
        {
            out.push(
                ExpirationInfo {
                    data_id: self.subs[i].data_id,
                    expiration_timestamp: self.subs[i].expiration_timestamp,
                },
            );
            i = i + 1;
            assert(out@ =~= self.subs@.subrange(0, i as int).map_values(
                |s: UserSubmission| expiration_of(s),
            ));
        }
        assert(self.subs@.subrange(0, self.subs@.len() as int) =~= self.subs@);
        out
    }
}

} // verus!
