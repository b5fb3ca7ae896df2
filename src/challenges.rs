//! The challenge registry: time-bounded, geofenced campaigns.
use vstd::prelude::*;
use crate::submissions::SECOND_NS;

verus! {

/// A campaign: submissions count toward it while it is active and inside its
/// circle. The center is in units of 1e-7 degree, the radius in millimetres.
pub struct Challenge {
    pub id: u64,
    pub title: String,
    pub latitude_e7: i64,
    pub longitude_e7: i64,
    pub radius_mm: u64,
    pub expiration: u64,
    pub picture_url: String,
}

/// Why a submission does not qualify for a challenge.
#[derive(PartialEq, Eq, Structural, Clone, Copy, Debug)]
pub enum ChallengeError {
    /// No challenge has this id.
    NotFound,
    /// The challenge is no longer active.
    Expired,
    /// The point lies outside the challenge's circle.
    OutsideGeofence,
}

/// Ids are 1, 2, 3, ... in order of creation.
pub open spec fn challenges_wf(s: Seq<Challenge>) -> bool {
    forall|i: int| 0 <= i < s.len() ==> (#[trigger] s[i]).id == i + 1
}

pub open spec fn lookup_challenge(s: Seq<Challenge>, id: u64) -> Option<Challenge> {
    if 1 <= id <= s.len() {
        Some(s[id - 1])
    } else {
        None
    }
}

/// A challenge is active strictly before its expiration.
pub open spec fn active_at(c: Challenge, at: u64) -> bool {
    c.expiration > at
}

/// Nanoseconds left before `c` expires, never negative.
pub open spec fn remaining_ns(c: Challenge, now: u64) -> nat {
    if c.expiration > now {
        (c.expiration - now) as nat
    } else {
        0
    }
}

/// `seconds` in nanoseconds, capped at the largest `u64`.
pub open spec fn cutoff_ns(seconds: u64) -> nat {
    if seconds * SECOND_NS > u64::MAX {
        u64::MAX as nat
    } else {
        (seconds * SECOND_NS) as nat
    }
}

/// The challenges of `s` that satisfy `p`, in order.
pub open spec fn select_challenges(s: Seq<Challenge>, p: spec_fn(Challenge) -> bool) -> Seq<Challenge>
    decreases s.len(),
{
    if s.len() == 0 {
        Seq::empty()
    } else if p(s.last()) {
        select_challenges(s.drop_last(), p).push(s.last())
    } else {
        select_challenges(s.drop_last(), p)
    }
}

/// Whether a submission made at `now`, whose point is inside the circle of
/// `id` exactly when `within` holds, qualifies for challenge `id`.
pub open spec fn eligibility(s: Seq<Challenge>, id: u64, now: u64, within: bool) -> Result<
    (),
    ChallengeError,
> {
    match lookup_challenge(s, id) {
        None => Err(ChallengeError::NotFound),
        Some(c) => if !active_at(c, now) {
            Err(ChallengeError::Expired)
        } else if !within {
            Err(ChallengeError::OutsideGeofence)
        } else {
            Ok(())
        },
    }
}

impl Challenge {
    pub fn duplicate(&self) -> (r: Challenge)
        ensures
            r == *self,
    {
        Challenge {
            id: self.id,
            title: self.title.clone(),
            latitude_e7: self.latitude_e7,
            longitude_e7: self.longitude_e7,
            radius_mm: self.radius_mm,
            expiration: self.expiration,
            picture_url: self.picture_url.clone(),
        }
    }
}

pub struct ChallengeRegistry {
    challenges: Vec<Challenge>,
}

impl View for ChallengeRegistry {
    type V = Seq<Challenge>;

    closed spec fn view(&self) -> Seq<Challenge> {
        self.challenges@
    }
}

impl ChallengeRegistry {
    pub open spec fn wf(&self) -> bool {
        challenges_wf(self@)
    }

    pub fn new() -> (r: ChallengeRegistry)
        ensures
            r@ == Seq::<Challenge>::empty(),
            r.wf(),
    {
        ChallengeRegistry { challenges: Vec::new() }
    }

    /// Registers a challenge that expires `expiration_duration` nanoseconds
    /// after `now`, under the next id, and returns that id.
    pub fn create_challenge(
        &mut self,
        title: String,
        latitude_e7: i64,
        longitude_e7: i64,
        radius_mm: u64,
        expiration_duration: u64,
        picture_url: String,
        now: u64,
    ) -> (r: u64)
        requires
            old(self).wf(),
            old(self)@.len() < u64::MAX,
            now + expiration_duration <= u64::MAX,
        ensures
            final(self).wf(),
            r == old(self)@.len() + 1,
            final(self)@ == old(self)@.push(
                (Challenge {
                    id: r,
                    title: title,
                    latitude_e7: latitude_e7,
                    longitude_e7: longitude_e7,
                    radius_mm: radius_mm,
                    expiration: (now + expiration_duration) as u64,
                    picture_url: picture_url,
                }),
            ),
    {
        let id = self.challenges.len() as u64 + 1;
        self.challenges.push(
            Challenge {
                id,
                title,
                latitude_e7,
                longitude_e7,
                radius_mm,
                expiration: now + expiration_duration,
                picture_url,
            },
        );
        id
    }

    pub fn get_challenge(&self, challenge_id: u64) -> (r: Option<Challenge>)
        requires
            self.wf(),
        ensures
            r == lookup_challenge(self@, challenge_id),
    {
        let n = self.challenges.len();
        if 1 <= challenge_id && challenge_id <= n as u64 {
            Some(self.challenges[(challenge_id - 1) as usize].duplicate())
        } else {
            None
        }
    }

    /// Whether challenge `challenge_id` exists and is active at `at`.
    pub fn is_active(&self, challenge_id: u64, at: u64) -> (r: bool)
        requires
            self.wf(),
        ensures
            r == match lookup_challenge(self@, challenge_id) {
                Some(c) => active_at(c, at),
                None => false,
            },
    {
        let n = self.challenges.len();
        if 1 <= challenge_id && challenge_id <= n as u64 {
            self.challenges[(challenge_id - 1) as usize].expiration > at
        } else {
            false
        }
    }

    /// Decides whether a submission made at `now` qualifies for challenge
    /// `challenge_id`; `within` tells whether its point lies in the circle.
    pub fn is_submission_within_challenge(&self, challenge_id: u64, now: u64, within: bool) -> (r:
        Result<(), ChallengeError>)
        requires
            self.wf(),
        ensures
            r == eligibility(self@, challenge_id, now, within),
    {
        let n = self.challenges.len();
        if challenge_id < 1 || challenge_id > n as u64 {
            return Err(ChallengeError::NotFound);
        }
        if self.challenges[(challenge_id - 1) as usize].expiration <= now {
            return Err(ChallengeError::Expired);
        }
        if !within {
            return Err(ChallengeError::OutsideGeofence);
        }
        Ok(())
    }

    /// All challenges, in id order.
    pub fn get_all_challenges(&self) -> (r: Vec<Challenge>)
        ensures
            r@ == self@,
    {
        let mut out: Vec<Challenge> = Vec::new();
        let mut i: usize = 0;
        while i < self.challenges.len()
            invariant
                i <= self.challenges@.len(),
                out@ == self.challenges@.subrange(0, i as int),
            decreases self.challenges@.len() - i,
        {
            out.push(self.challenges[i].duplicate());
            i = i + 1;
            assert(out@ =~= self.challenges@.subrange(0, i as int));
        }
        assert(self.challenges@.subrange(0, self.challenges@.len() as int) =~= self.challenges@);
        out
    }

    /// The challenges still active at `now`, in id order.
    pub fn get_unexpired_challenges(&self, now: u64) -> (r: Vec<Challenge>)
        ensures
            r@ == select_challenges(self@, |c: Challenge| active_at(c, now)),
    {
        let mut out: Vec<Challenge> = Vec::new();
        let mut i: usize = 0;
        while i < self.challenges.len()
            invariant
                i <= self.challenges@.len(),
                out@ == select_challenges(
                    self.challenges@.subrange(0, i as int),
                    |c: Challenge| active_at(c, now),
                ),
            decreases self.challenges@.len() - i,
        {
            proof {
                assert(self.challenges@.subrange(0, i as int + 1).drop_last()
                    =~= self.challenges@.subrange(0, i as int));
            }
            if self.challenges[i].expiration > now {
                out.push(self.challenges[i].duplicate());
            }
            i = i + 1;
        }
        assert(self.challenges@.subrange(0, self.challenges@.len() as int) =~= self.challenges@);
        out
    }

    /// The challenges whose remaining time at `now` is at most
    /// `cutoff_seconds`; expired ones have none left and are included.
    pub fn get_challenges_expiring_soon(&self, cutoff_seconds: u64, now: u64) -> (r: Vec<Challenge>)
        ensures
            r@ == select_challenges(
                self@,
                |c: Challenge| remaining_ns(c, now) <= cutoff_ns(cutoff_seconds),
            ),
    {
        let cutoff: u64 = match cutoff_seconds.checked_mul(SECOND_NS) {
            Some(c) => c,
            None => u64::MAX,
        };
        let mut out: Vec<Challenge> = Vec::new();
        let mut i: usize = 0;
        while i < self.challenges.len()
            invariant
                i <= self.challenges@.len(),
                cutoff == cutoff_ns(cutoff_seconds),
                out@ == select_challenges(
                    self.challenges@.subrange(0, i as int),
                    |c: Challenge| remaining_ns(c, now) <= cutoff_ns(cutoff_seconds),
                ),
            decreases self.challenges@.len() - i,
        {
            proof {
                assert(self.challenges@.subrange(0, i as int + 1).drop_last()
                    =~= self.challenges@.subrange(0, i as int));
            }
            let remaining = self.challenges[i].expiration.saturating_sub(now);
            if remaining <= cutoff {
                out.push(self.challenges[i].duplicate());
            }
            i = i + 1;
        }
        assert(self.challenges@.subrange(0, self.challenges@.len() as int) =~= self.challenges@);
        out
    }
}

} // verus!
