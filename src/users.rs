//! The user directory: profiles, payout addresses, balances and roles.
use vstd::prelude::*;
use crate::submissions::RestoreError;

verus! {

/// A user's standing in role-gated operations.
#[derive(PartialEq, Eq, Structural, Clone, Copy, Debug)]
pub enum Role {
    User,
    Admin,
    Moderator,
}

impl Default for Role {
    fn default() -> (r: Role)
        ensures
            r == Role::User,
    {
        Role::User
    }
}

pub struct User {
    pub user_id: String,
    pub balance: u64,
    pub first_name: Option<String>,
    pub last_name: Option<String>,
    pub username: Option<String>,
    pub language_code: Option<String>,
    pub is_bot: bool,
    pub profile_picture_url: Option<String>,
    pub wallet_address: Option<String>,
    pub role: Role,
}

/// Why a directory operation was refused.
#[derive(PartialEq, Eq, Structural, Clone, Copy, Debug)]
pub enum UserError {
    /// The user named is not in the directory.
    NotFound,
    /// The caller of a role change is not in the directory.
    CallerNotFound,
    /// The target of a role change is not in the directory.
    TargetNotFound,
    /// Only an admin may change roles once an admin exists.
    Forbidden,
}

pub open spec fn is_user(u: User, id: Seq<char>) -> bool {
    u.user_id@ == id
}

pub open spec fn has_user(users: Seq<User>, id: Seq<char>) -> bool {
    exists|i: int| 0 <= i < users.len() && #[trigger] is_user(users[i], id)
}

/// Each user id occurs at most once.
pub open spec fn unique_users(users: Seq<User>) -> bool {
    forall|i: int, j: int|
        0 <= i < users.len() && 0 <= j < users.len() && i != j ==> !#[trigger] is_user(
            users[i],
            #[trigger] users[j].user_id@,
        )
}

/// No two backup entries carry the same key.
pub open spec fn distinct_keys(backup: Seq<(String, User)>) -> bool {
    forall|a: int, b: int| 0 <= a < b < backup.len() ==> (#[trigger] backup[a]).0@ != (#[trigger] backup[b]).0@
}

pub open spec fn user_pos(users: Seq<User>, id: Seq<char>) -> int {
    choose|i: int| 0 <= i < users.len() && #[trigger] is_user(users[i], id)
}

/// The record held for `id`, if any.
pub open spec fn lookup_user(users: Seq<User>, id: Seq<char>) -> Option<User> {
    if has_user(users, id) {
        Some(users[user_pos(users, id)])
    } else {
        None
    }
}

pub open spec fn has_admin(users: Seq<User>) -> bool {
    exists|i: int| 0 <= i < users.len() && #[trigger] users[i].role == Role::Admin
}

/// Role changes need an admin caller, except while no admin exists at all.
pub open spec fn may_set_roles(users: Seq<User>, caller: User) -> bool {
    !has_admin(users) || caller.role == Role::Admin
}

/// The balance held for `id`; a user with no record holds nothing.
pub open spec fn balance_of(users: Seq<User>, id: Seq<char>) -> u64 {
    match lookup_user(users, id) {
        Some(u) => u.balance,
        None => 0,
    }
}

/// `users` with the record of `id`, if any, replaced by `f` of it.
pub open spec fn update_user(users: Seq<User>, id: Seq<char>, f: spec_fn(User) -> User) -> Seq<User> {
    users.map_values(|u: User| if is_user(u, id) { f(u) } else { u })
}

/// A profile sync: the profile fields change; balance, payout address and
/// role stay.
pub open spec fn synced(
    u: User,
    first_name: String,
    last_name: String,
    username: String,
    language_code: String,
    is_bot: bool,
    profile_picture_url: String,
) -> User {
    User {
        first_name: Some(first_name),
        last_name: Some(last_name),
        username: Some(username),
        language_code: Some(language_code),
        is_bot: is_bot,
        profile_picture_url: Some(profile_picture_url),
        ..u
    }
}

pub fn clone_opt(s: &Option<String>) -> (r: Option<String>)
    ensures
        r == *s,
{
    match s {
        Some(t) => Some(t.clone()),
        None => None,
    }
}

impl User {
    pub fn duplicate(&self) -> (r: User)
        ensures
            r == *self,
    {
        User {
            user_id: self.user_id.clone(),
            balance: self.balance,
            first_name: clone_opt(&self.first_name),
            last_name: clone_opt(&self.last_name),
            username: clone_opt(&self.username),
            language_code: clone_opt(&self.language_code),
            is_bot: self.is_bot,
            profile_picture_url: clone_opt(&self.profile_picture_url),
            wallet_address: clone_opt(&self.wallet_address),
            role: self.role,
        }
    }
}

pub struct UserDirectory {
    users: Vec<User>,
}

impl View for UserDirectory {
    type V = Seq<User>;

    closed spec fn view(&self) -> Seq<User> {
        self.users@
    }
}

proof fn lemma_pos_of_unique(users: Seq<User>, id: Seq<char>, i: int)
    requires
        unique_users(users),
        0 <= i < users.len(),
        is_user(users[i], id),
    ensures
        has_user(users, id),
        user_pos(users, id) == i,
        lookup_user(users, id) == Some(users[i]),
{
    let j = user_pos(users, id);
    assert(is_user(users[j], id));
    if j != i {
        assert(!is_user(users[j], users[i].user_id@));
    }
}

impl UserDirectory {
    pub open spec fn wf(&self) -> bool {
        unique_users(self@)
    }

    pub fn new() -> (r: UserDirectory)
        ensures
            r@ == Seq::<User>::empty(),
            r.wf(),
    {
        UserDirectory { users: Vec::new() }
    }

    /// Rebuilds a directory from `(key, record)` entries; each record takes
    /// its key as id. Keys must be distinct.
    pub fn from_backup(backup: Vec<(String, User)>) -> (r: Result<UserDirectory, RestoreError>)
        ensures
            r is Ok <==> distinct_keys(backup@),
            match r {
                Ok(dir) => dir.wf() && dir@ == backup@.map_values(
                    |e: (String, User)| User { user_id: e.0, ..e.1 },
                ),
                Err(RestoreError::DuplicateKey(i)) => i < backup@.len() && exists|j: int|
                    0 <= j < i && #[trigger] backup@[j].0@ == backup@[i as int].0@,
                Err(_) => false,
            },
    {
        let mut users: Vec<User> = Vec::new();
        let mut i: usize = 0;
        while i < backup.len()
            invariant
                i <= backup@.len(),
                distinct_keys(backup@.subrange(0, i as int)),
                users@ == backup@.subrange(0, i as int).map_values(
                    |e: (String, User)| User { user_id: e.0, ..e.1 },
                ),
            decreases backup@.len() - i,
        {
            let mut j: usize = 0;
            while j < i
                invariant
                    i < backup@.len(),
                    j <= i,
                    forall|k: int| 0 <= k < j ==> (#[trigger] backup@[k]).0@ != backup@[i as int].0@,
                decreases i - j,
            {
                if backup[j].0 == backup[i].0 {
                    proof {
                        assert(backup@.subrange(0, i as int + 1)[j as int] == backup@[j as int]);
                        assert(!distinct_keys(backup@)) by {
                            assert(backup@[j as int].0@ == backup@[i as int].0@);
                        }
                    }
                    return Err(RestoreError::DuplicateKey(i as u64));
                }
                j = j + 1;
            }
            let rec = backup[i].1.duplicate();
            let u = User { user_id: backup[i].0.clone(), ..rec };
            users.push(u);
            i = i + 1;
            assert(users@ =~= backup@.subrange(0, i as int).map_values(
                |e: (String, User)| User { user_id: e.0, ..e.1 },
            ));
            assert(distinct_keys(backup@.subrange(0, i as int))) by {
                let p = backup@.subrange(0, i as int);
                assert forall|a: int, b: int| 0 <= a < b < p.len() implies (#[trigger] p[a]).0@
                    != (#[trigger] p[b]).0@ by {
                    if b < i - 1 {
                        assert(backup@.subrange(0, i - 1)[a] == p[a]);
                        assert(backup@.subrange(0, i - 1)[b] == p[b]);
                    }
                }
            }
        }
        assert(backup@.subrange(0, backup@.len() as int) =~= backup@);
        proof {
            assert forall|a: int, b: int|
                0 <= a < users@.len() && 0 <= b < users@.len() && a != b implies !#[trigger] is_user(
                users@[a],
                #[trigger] users@[b].user_id@,
            ) by {
                if a < b {
                    assert(backup@[a].0@ != backup@[b].0@);
                } else {
                    assert(backup@[b].0@ != backup@[a].0@);
                }
            }
        }
        Ok(UserDirectory { users })
    }

    /// Position of the record of `id`, if any.
    fn find(&self, id: &String) -> (r: Option<usize>)
        requires
            self.wf(),
        ensures
            match r {
                Some(i) => i < self@.len() && is_user(self@[i as int], id@) && i == user_pos(
                    self@,
                    id@,
                ) && lookup_user(self@, id@) == Some(self@[i as int]),
                None => !has_user(self@, id@) && lookup_user(self@, id@) is None,
            },
    {
        let mut i: usize = 0;
        while i < self.users.len()
            invariant
                self.wf(),
                i <= self.users@.len(),
                forall|k: int| 0 <= k < i ==> !#[trigger] is_user(self.users@[k], id@),
            decreases self.users@.len() - i,
        {
            if self.users[i].user_id == *id {
                proof {
                    lemma_pos_of_unique(self.users@, id@, i as int);
                }
                return Some(i);
            }
            i = i + 1;
        }
        None
    }

    /// Replaces the record at `i` by `u`, which keeps its id.
    fn replace(&mut self, i: usize, u: User, Ghost(f): Ghost<spec_fn(User) -> User>)
        requires
            old(self).wf(),
            i < old(self)@.len(),
            u == f(old(self)@[i as int]),
            u.user_id@ == old(self)@[i as int].user_id@,
        ensures
            final(self).wf(),
            final(self)@ == update_user(old(self)@, u.user_id@, f),
    {
        let ghost before = self.users@;
        let ghost id = u.user_id@;
        self.users.set(i, u);
        proof {
            let expect = update_user(before, id, f);
            assert forall|k: int| 0 <= k < before.len() implies self.users@[k] == expect[k] by {
                if k != i && is_user(before[k], id) {
                    assert(!is_user(before[k], before[i as int].user_id@));
                }
            }
            assert(self.users@ =~= expect);
            assert forall|a: int, b: int|
                0 <= a < self.users@.len() && 0 <= b < self.users@.len() && a != b
                    implies !#[trigger] is_user(self.users@[a], #[trigger] self.users@[b].user_id@) by {
                assert(!is_user(before[a], before[b].user_id@));
            }
        }
    }

    /// Creates the user, or refreshes the profile of an existing one; returns
    /// true when a new record was created.
    pub fn create_tg_user(
        &mut self,
        telegram_id: String,
        first_name: String,
        last_name: String,
        username: String,
        language_code: String,
        is_bot: bool,
        profile_picture_url: String,
    ) -> (created: bool)
        requires
            old(self).wf(),
        ensures
            final(self).wf(),
            created == !has_user(old(self)@, telegram_id@),
            !created ==> final(self)@ == update_user(
                old(self)@,
                telegram_id@,
                |u: User|
                    synced(
                        u,
                        first_name,
                        last_name,
                        username,
                        language_code,
                        is_bot,
                        profile_picture_url,
                    ),
            ),
            created ==> final(self)@ == old(self)@.push(
                (User {
                    user_id: telegram_id,
                    balance: 0,
                    first_name: Some(first_name),
                    last_name: Some(last_name),
                    username: Some(username),
                    language_code: Some(language_code),
                    is_bot: is_bot,
                    profile_picture_url: Some(profile_picture_url),
                    wallet_address: None,
                    role: Role::User,
                }),
            ),
    {
        let ghost f = |u: User|
            synced(u, first_name, last_name, username, language_code, is_bot, profile_picture_url);
        match self.find(&telegram_id) {
            Some(i) => {
                let old_u = self.users[i].duplicate();
                let u = User {
                    first_name: Some(first_name),
                    last_name: Some(last_name),
                    username: Some(username),
                    language_code: Some(language_code),
                    is_bot,
                    profile_picture_url: Some(profile_picture_url),
                    ..old_u
                };
                self.replace(i, u, Ghost(f));
                false
            },
            None => {
                let ghost before = self.users@;
                self.users.push(
                    User {
                        user_id: telegram_id,
                        balance: 0,
                        first_name: Some(first_name),
                        last_name: Some(last_name),
                        username: Some(username),
                        language_code: Some(language_code),
                        is_bot,
                        profile_picture_url: Some(profile_picture_url),
                        wallet_address: None,
                        role: Role::User,
                    },
                );
                proof {
                    let n = before.len() as int;
                    assert forall|a: int, b: int|
                        0 <= a < self.users@.len() && 0 <= b < self.users@.len() && a != b
                            implies !#[trigger] is_user(
                            self.users@[a],
                            #[trigger] self.users@[b].user_id@,
                        ) by {
                        if a == n {
                            assert(!is_user(before[b], self.users@[n].user_id@));
                        } else if b == n {
                            assert(!is_user(before[a], self.users@[n].user_id@));
                        } else {
                            assert(!is_user(before[a], before[b].user_id@));
                        }
                    }
                }
                true
            },
        }
    }

    /// The record of `user_id`.
    pub fn get_tg_user(&self, user_id: &String) -> (r: Option<User>)
        requires
            self.wf(),
        ensures
            r == lookup_user(self@, user_id@),
    {
        match self.find(user_id) {
            Some(i) => Some(self.users[i].duplicate()),
            None => None,
        }
    }

    /// All records, in directory order.
    pub fn get_all_users(&self) -> (r: Vec<User>)
        ensures
            r@ == self@,
    {
        let mut out: Vec<User> = Vec::new();
        let mut i: usize = 0;
        while i < self.users.len()
            invariant
                i <= self.users@.len(),
                out@ == self.users@.subrange(0, i as int),
            decreases self.users@.len() - i,
        {
            out.push(self.users[i].duplicate());
            i = i + 1;
            assert(out@ =~= self.users@.subrange(0, i as int));
        }
        assert(self.users@.subrange(0, self.users@.len() as int) =~= self.users@);
        out
    }

    /// Sets the payout address of an existing user.
    pub fn update_wallet_address(&mut self, user_id: &String, wallet_address: String) -> (r: Result<(), UserError>)
        requires
            old(self).wf(),
        ensures
            final(self).wf(),
            r is Ok <==> has_user(old(self)@, user_id@),
            r is Ok ==> final(self)@ == update_user(
                old(self)@,
                user_id@,
                |u: User| User { wallet_address: Some(wallet_address), ..u },
            ),
            r is Err ==> r == Err::<(), UserError>(UserError::NotFound) && final(self)@ == old(
                self,
            )@,
    {
        let ghost f = |u: User| User { wallet_address: Some(wallet_address), ..u };
        match self.find(user_id) {
            Some(i) => {
                let old_u = self.users[i].duplicate();
                let u = User { wallet_address: Some(wallet_address), ..old_u };
                self.replace(i, u, Ghost(f));
                Ok(())
            },
            None => Err(UserError::NotFound),
        }
    }

    /// Token balance of `user_id`; zero for an unknown user.
    pub fn get_balance(&self, user_id: &String) -> (r: u64)
        requires
            self.wf(),
        ensures
            r == balance_of(self@, user_id@),
    {
        match self.find(user_id) {
            Some(i) => self.users[i].balance,
            None => 0,
        }
    }

    /// Adds `amount` to the balance of `user_id` (saturating at the largest
    /// balance), creating a bare record for an unknown user.
    pub fn credit(&mut self, user_id: &String, amount: u64) -> (r: u64)
        requires
            old(self).wf(),
        ensures
            final(self).wf(),
            r as int == if balance_of(old(self)@, user_id@) + amount > u64::MAX {
                u64::MAX as int
            } else {
                balance_of(old(self)@, user_id@) + amount
            },
            balance_of(final(self)@, user_id@) == r,
            has_user(old(self)@, user_id@) ==> final(self)@ == update_user(
                old(self)@,
                user_id@,
                |u: User| User { balance: r, ..u },
            ),
            !has_user(old(self)@, user_id@) ==> final(self)@ == old(self)@.push(
                (User {
                    user_id: *user_id,
                    balance: r,
                    first_name: None,
                    last_name: None,
                    username: None,
                    language_code: None,
                    is_bot: false,
                    profile_picture_url: None,
                    wallet_address: None,
                    role: Role::User,
                }),
            ),
    {
        match self.find(user_id) {
            Some(i) => {
                let old_u = self.users[i].duplicate();
                let b = old_u.balance.saturating_add(amount);
                let ghost f = |u: User| User { balance: b, ..u };
                let u = User { balance: b, ..old_u };
                self.replace(i, u, Ghost(f));
                proof {
                    lemma_pos_of_unique(self.users@, user_id@, i as int);
                }
                b
            },
            None => {
                let ghost before = self.users@;
                let b = amount;
                self.users.push(
                    User {
                        user_id: user_id.clone(),
                        balance: b,
                        first_name: None,
                        last_name: None,
                        username: None,
                        language_code: None,
                        is_bot: false,
                        profile_picture_url: None,
                        wallet_address: None,
                        role: Role::User,
                    },
                );
                proof {
                    let n = before.len() as int;
                    assert forall|a: int, b: int|
                        0 <= a < self.users@.len() && 0 <= b < self.users@.len() && a != b
                            implies !#[trigger] is_user(
                            self.users@[a],
                            #[trigger] self.users@[b].user_id@,
                        ) by {
                        if a == n {
                            assert(!is_user(before[b], self.users@[n].user_id@));
                        } else if b == n {
                            assert(!is_user(before[a], self.users@[n].user_id@));
                        } else {
                            assert(!is_user(before[a], before[b].user_id@));
                        }
                    }
                    lemma_pos_of_unique(self.users@, user_id@, n);
                }
                b
            },
        }
    }

    /// Whether some user holds the admin role.
    pub fn any_admin(&self) -> (r: bool)
        ensures
            r == has_admin(self@),
    {
        let mut i: usize = 0;
        while i < self.users.len()
            invariant
                i <= self.users@.len(),
                forall|k: int| 0 <= k < i ==> #[trigger] self.users@[k].role != Role::Admin,
            decreases self.users@.len() - i,
        {
            if self.users[i].role == Role::Admin {
                return true;
            }
            i = i + 1;
        }
        false
    }

    /// Gives `target_user_id` the role `new_role`. The caller must be an
    /// admin, unless no admin exists yet: then anyone may appoint the first.
    pub fn update_user_role(&mut self, caller_id: &String, target_user_id: &String, new_role: Role) -> (r: Result<(), UserError>)
        requires
            old(self).wf(),
        ensures
            final(self).wf(),
            !has_user(old(self)@, caller_id@) ==> r == Err::<(), UserError>(UserError::CallerNotFound),
            has_user(old(self)@, caller_id@) && !has_user(old(self)@, target_user_id@) ==> r == Err::<
                (),
                UserError,
            >(UserError::TargetNotFound),
            has_user(old(self)@, caller_id@) && has_user(old(self)@, target_user_id@) ==> (r is Ok
                <==> may_set_roles(old(self)@, lookup_user(old(self)@, caller_id@)->0)),
            has_user(old(self)@, caller_id@) && has_user(old(self)@, target_user_id@) && r is Err
                ==> r == Err::<(), UserError>(UserError::Forbidden),
            r is Ok ==> final(self)@ == update_user(
                old(self)@,
                target_user_id@,
                |u: User| User { role: new_role, ..u },
            ),
            r is Err ==> final(self)@ == old(self)@,
    {
        let c = match self.find(caller_id) {
            Some(c) => c,
            None => return Err(UserError::CallerNotFound),
        };
        let t = match self.find(target_user_id) {
            Some(t) => t,
            None => return Err(UserError::TargetNotFound),
        };
        let first_admin = !self.any_admin();
        if !first_admin && self.users[c].role != Role::Admin {
            return Err(UserError::Forbidden);
        }
        let old_u = self.users[t].duplicate();
        let u = User { role: new_role, ..old_u };
        let ghost f = |u: User| User { role: new_role, ..u };
        self.replace(t, u, Ghost(f));
        Ok(())
    }

    /// Role of `user_id`.
    pub fn get_user_role(&self, user_id: &String) -> (r: Result<Role, UserError>)
        requires
            self.wf(),
        ensures
            match lookup_user(self@, user_id@) {
                Some(u) => r == Ok::<Role, UserError>(u.role),
                None => r == Err::<Role, UserError>(UserError::NotFound),
            },
    {
        match self.find(user_id) {
            Some(i) => Ok(self.users[i].role),
            None => Err(UserError::NotFound),
        }
    }
}

} // verus!
