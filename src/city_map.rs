//! Submissions grouped by city, with their authors' profile fields.
use vstd::prelude::*;
use crate::dao::Dao;
use crate::submissions::{select, PostStatus, UserSubmission};
use crate::users::{lookup_user, User};

verus! {

/// A submission with its author's public profile fields; the profile fields
/// are empty when the author has no record.
pub struct SubmissionInfo {
    pub data_id: u64,
    pub user_id: String,
    pub username: Option<String>,
    pub first_name: Option<String>,
    pub last_name: Option<String>,
    pub profile_picture_url: Option<String>,
    pub latitude_e7: i64,
    pub longitude_e7: i64,
    pub city: String,
    pub temperature_mc: i64,
    pub weather: String,
    pub timestamp: u64,
    pub submission_photo_url: String,
    pub rewarded: bool,
    pub status: PostStatus,
}

pub open spec fn info_of(users: Seq<User>, s: UserSubmission) -> SubmissionInfo {
    let u = lookup_user(users, s.user@);
    SubmissionInfo {
        data_id: s.data_id,
        user_id: s.user,
        username: match u {
            Some(x) => x.username,
            None => None,
        },
        first_name: match u {
            Some(x) => x.first_name,
            None => None,
        },
        last_name: match u {
            Some(x) => x.last_name,
            None => None,
        },
        profile_picture_url: match u {
            Some(x) => x.profile_picture_url,
            None => None,
        },
        latitude_e7: s.data.latitude_e7,
        longitude_e7: s.data.longitude_e7,
        city: s.data.city,
        temperature_mc: s.data.temperature_mc,
        weather: s.data.weather,
        timestamp: s.data.timestamp,
        submission_photo_url: s.data.submission_photo_url,
        rewarded: s.rewarded,
        status: s.status,
    }
}

/// Whether the map shows `s`: all submissions, or only the paid ones.
pub open spec fn shown(s: UserSubmission, paid_only: bool) -> bool {
    !paid_only || s.rewarded || s.status == PostStatus::Paid
}

pub open spec fn in_group(s: UserSubmission, paid_only: bool, city: Seq<char>) -> bool {
    shown(s, paid_only) && s.data.city@ == city
}

/// `groups` has one entry per city of a shown submission, and each entry
/// lists the shown submissions of that city in id order.
pub open spec fn is_city_map(
    groups: Seq<(String, Vec<SubmissionInfo>)>,
    subs: Seq<UserSubmission>,
    users: Seq<User>,
    paid_only: bool,
) -> bool {
    &&& forall|a: int, b: int|
        0 <= a < b < groups.len() ==> (#[trigger] groups[a]).0@ != (#[trigger] groups[b]).0@
    &&& forall|i: int|
        0 <= i < subs.len() && shown(#[trigger] subs[i], paid_only) ==> exists|k: int|
            0 <= k < groups.len() && (#[trigger] groups[k]).0@ == subs[i].data.city@
    &&& forall|k: int|
        0 <= k < groups.len() ==> (#[trigger] groups[k]).1@ == select(
            subs,
            |s: UserSubmission| in_group(s, paid_only, groups[k].0@),
        ).map_values(|s: UserSubmission| info_of(users, s))
}

impl Dao {
    fn info(&self, s: &UserSubmission) -> (r: SubmissionInfo)
        requires
            self.users.wf(),
        ensures
            r == info_of(self.users@, *s),
    {
        let u = self.users.get_tg_user(&s.user);
        let (username, first_name, last_name, profile_picture_url) = match u {
            Some(x) => (x.username, x.first_name, x.last_name, x.profile_picture_url),
            None => (None, None, None, None),
        };
        SubmissionInfo {
            data_id: s.data_id,
            user_id: s.user.clone(),
            username,
            first_name,
            last_name,
            profile_picture_url,
            latitude_e7: s.data.latitude_e7,
            longitude_e7: s.data.longitude_e7,
            city: s.data.city.clone(),
            temperature_mc: s.data.temperature_mc,
            weather: s.data.weather.clone(),
            timestamp: s.data.timestamp,
            submission_photo_url: s.data.submission_photo_url.clone(),
            rewarded: s.rewarded,
            status: s.status,
        }
    }

    fn shows(s: &UserSubmission, paid_only: bool) -> (r: bool)
        ensures
            r == shown(*s, paid_only),
    {
        !paid_only || s.rewarded || s.status == PostStatus::Paid
    }

    /// The shown submissions of one city, as infos, in id order.
    fn city_group(&self, all: &Vec<UserSubmission>, city: &String, paid_only: bool) -> (r: Vec<
        SubmissionInfo,
    >)
        requires
            self.users.wf(),
        ensures
            r@ == select(all@, |s: UserSubmission| in_group(s, paid_only, city@)).map_values(
                |s: UserSubmission| info_of(self.users@, s),
            ),
    {
        let ghost p = |s: UserSubmission| in_group(s, paid_only, city@);
        let ghost f = |s: UserSubmission| info_of(self.users@, s);
        let mut out: Vec<SubmissionInfo> = Vec::new();
        let mut i: usize = 0;
        while i < all.len()
            invariant
                self.users.wf(),
                i <= all@.len(),
                p == (|s: UserSubmission| in_group(s, paid_only, city@)),
                f == (|s: UserSubmission| info_of(self.users@, s)),
                out@ == select(all@.subrange(0, i as int), p).map_values(f),
            decreases all@.len() - i,
        {
            let ghost pre = all@.subrange(0, i as int);
            let ghost nxt = all@.subrange(0, i as int + 1);
            proof {
                assert(nxt.drop_last() =~= pre);
                assert(nxt.last() == all@[i as int]);
            }
            let ghost out0 = out@;
            if Self::shows(&all[i], paid_only) && all[i].data.city == *city {
                out.push(self.info(&all[i]));
                proof {
                    assert(p(all@[i as int]));
                    assert(select(nxt, p) == select(pre, p).push(all@[i as int]));
                    assert(out@ =~= select(nxt, p).map_values(f));
                }
            } else {
                proof {
                    assert(!p(all@[i as int]));
                    assert(select(nxt, p) == select(pre, p));
                }
            }
            i = i + 1;
        }
        assert(all@.subrange(0, all@.len() as int) =~= all@);
        out
    }

    /// Shown submissions grouped by city.
    pub fn city_map(&self, paid_only: bool) -> (r: Vec<(String, Vec<SubmissionInfo>)>)
        requires
            self.users.wf(),
        ensures
            is_city_map(r@, self.submissions@, self.users@, paid_only),
    {
        let all = self.submissions.get_all_submissions();
        let mut cities: Vec<String> = Vec::new();
        let mut i: usize = 0;
        while i < all.len()
            invariant
                i <= all@.len(),
                all@ == self.submissions@,
                forall|a: int, b: int|
                    0 <= a < b < cities@.len() ==> (#[trigger] cities@[a])@ != (#[trigger] cities@[b])@,
                forall|j: int|
                    0 <= j < i && shown(#[trigger] all@[j], paid_only) ==> exists|k: int|
                        0 <= k < cities@.len() && (#[trigger] cities@[k])@ == all@[j].data.city@,
            decreases all@.len() - i,
        {
            if Self::shows(&all[i], paid_only) {
                let mut k: usize = 0;
                let mut found = false;
                while k < cities.len()
                    invariant
                        k <= cities@.len(),
                        i < all@.len(),
                        found ==> exists|m: int|
                            0 <= m < cities@.len() && (#[trigger] cities@[m])@ == all@[i as int].data.city@,
                        !found ==> forall|m: int|
                            0 <= m < k ==> (#[trigger] cities@[m])@ != all@[i as int].data.city@,
                    decreases cities@.len() - k,
                {
                    if cities[k] == all[i].data.city {
                        found = true;
                    }
                    k = k + 1;
                }
                if !found {
                    let ghost before = cities@;
                    cities.push(all[i].data.city.clone());
                    proof {
                        assert forall|j: int|
                            0 <= j < i && shown(#[trigger] all@[j], paid_only) implies exists|m: int|
                            0 <= m < cities@.len() && (#[trigger] cities@[m])@ == all@[j].data.city@ by {
                            let m = choose|m: int|
                                0 <= m < before.len() && (#[trigger] before[m])@ == all@[j].data.city@;
                            assert(cities@[m] == before[m]);
                        }
                        assert(cities@[before.len() as int]@ == all@[i as int].data.city@);
                    }
                }
            }
            i = i + 1;
        }
        let mut groups: Vec<(String, Vec<SubmissionInfo>)> = Vec::new();
        let mut c: usize = 0;
        while c < cities.len()
            invariant
                c <= cities@.len(),
                all@ == self.submissions@,
                self.users.wf(),
                groups@.len() == c,
                forall|k: int| 0 <= k < c ==> (#[trigger] groups@[k]).0 == cities@[k],
                forall|k: int|
                    0 <= k < c ==> (#[trigger] groups@[k]).1@ == select(
                        all@,
                        |s: UserSubmission| in_group(s, paid_only, groups@[k].0@),
                    ).map_values(|s: UserSubmission| info_of(self.users@, s)),
            decreases cities@.len() - c,
        {
            let g = self.city_group(&all, &cities[c], paid_only);
            groups.push((cities[c].clone(), g));
            c = c + 1;
        }
        proof {
            assert forall|a: int, b: int|
                0 <= a < b < groups@.len() implies (#[trigger] groups@[a]).0@ != (#[trigger] groups@[b]).0@ by {
                assert(cities@[a]@ != cities@[b]@);
            }
            assert forall|j: int|
                0 <= j < all@.len() && shown(#[trigger] all@[j], paid_only) implies exists|k: int|
                0 <= k < groups@.len() && (#[trigger] groups@[k]).0@ == all@[j].data.city@ by {
                let m = choose|m: int| 0 <= m < cities@.len() && (#[trigger] cities@[m])@ == all@[j].data.city@;
                assert(groups@[m].0 == cities@[m]);
            }
        }
        groups
    }

    /// All submissions grouped by city.
    pub fn get_submission_map_by_city(&self) -> (r: Vec<(String, Vec<SubmissionInfo>)>)
        requires
            self.users.wf(),
        ensures
            is_city_map(r@, self.submissions@, self.users@, false),
    {
        self.city_map(false)
    }

    /// The paid submissions grouped by city.
    pub fn get_paid_submission_map_by_city(&self) -> (r: Vec<(String, Vec<SubmissionInfo>)>)
        requires
            self.users.wf(),
        ensures
            is_city_map(r@, self.submissions@, self.users@, true),
    {
        self.city_map(true)
    }
}

} // verus!
