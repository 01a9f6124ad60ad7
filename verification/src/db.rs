//! The team membership service: users, teams and the membership relation,
//! with the single-team invariant enforced by every operation.
//!
//! The datastore's content is held here as plain rows; the operations are
//! the service's atomic units: each either completes its writes or leaves
//! the store unchanged, exactly as the relational collaborator's
//! transactions and uniqueness constraints would serialize them.

use vstd::prelude::*;
use vstd::string::*;

use crate::auth::User as AuthUser;
use crate::error::Error;
use crate::ids::lemma_decimal_injective;
use crate::ids::spec_decimal;
use crate::ids::u64_to_string;

verus! {

/// A user row: the identity's profile plus the global admin flag.
#[derive(Clone, Debug)]
pub struct User {
    pub name: String,
    pub id: String,
    pub email: String,
    pub is_admin: bool,
}

/// A team row.
#[derive(Clone, Debug)]
pub struct Team {
    pub id: String,
    pub name: String,
    pub film_name: String,
    pub film_description: String,
    pub has_file: bool,
}

/// One membership row linking a user to a team.
#[derive(Clone, Debug)]
pub struct Membership {
    pub user_id: String,
    pub team_id: String,
}

/// User ids are unique among the user rows.
pub open spec fn users_wf(users: Seq<User>) -> bool {
    forall|i: int, j: int| 0 <= i < j < users.len() ==> users[i].id@ != users[j].id@
}

pub open spec fn has_user(users: Seq<User>, uid: Seq<char>) -> bool {
    exists|i: int| 0 <= i < users.len() && users[i].id@ == uid
}

/// The row of the user with id `uid`; meaningful when `has_user` holds.
pub open spec fn spec_user_row(users: Seq<User>, uid: Seq<char>) -> User {
    users[choose|i: int| 0 <= i < users.len() && users[i].id@ == uid]
}

/// Team ids and team names are unique among the team rows.
pub open spec fn teams_wf(teams: Seq<Team>) -> bool {
    forall|i: int, j: int|
        0 <= i < j < teams.len() ==> teams[i].id@ != teams[j].id@ && teams[i].name@
            != teams[j].name@
}

pub open spec fn has_team_id(teams: Seq<Team>, tid: Seq<char>) -> bool {
    exists|i: int| 0 <= i < teams.len() && teams[i].id@ == tid
}

pub open spec fn has_team_name(teams: Seq<Team>, name: Seq<char>) -> bool {
    exists|i: int| 0 <= i < teams.len() && teams[i].name@ == name
}

/// The row of the team with id `tid`; meaningful when `has_team_id` holds.
pub open spec fn spec_team_by_id(teams: Seq<Team>, tid: Seq<char>) -> Team {
    teams[choose|i: int| 0 <= i < teams.len() && teams[i].id@ == tid]
}

/// The single-team invariant over the membership relation: no user id
/// appears in two membership rows.
pub open spec fn one_team_per_user(ms: Seq<Membership>) -> bool {
    forall|i: int, j: int| 0 <= i < j < ms.len() ==> ms[i].user_id@ != ms[j].user_id@
}

pub open spec fn user_in_team(ms: Seq<Membership>, uid: Seq<char>) -> bool {
    exists|i: int| 0 <= i < ms.len() && ms[i].user_id@ == uid
}

pub open spec fn is_member(ms: Seq<Membership>, uid: Seq<char>, tid: Seq<char>) -> bool {
    exists|i: int| 0 <= i < ms.len() && ms[i].user_id@ == uid && ms[i].team_id@ == tid
}

/// Every membership row points at an existing team.
pub open spec fn membership_teams_exist(ms: Seq<Membership>, teams: Seq<Team>) -> bool {
    forall|i: int| 0 <= i < ms.len() ==> has_team_id(teams, #[trigger] ms[i].team_id@)
}

/// Every team id was minted from a counter value below `next`.
pub open spec fn ids_minted(teams: Seq<Team>, next: nat) -> bool {
    forall|i: int|
        0 <= i < teams.len() ==> exists|k: nat| k < next && #[trigger] teams[i].id@ == spec_decimal(
            k,
        )
}

/// The user rows holding membership in team `tid`, in user-row order.
pub open spec fn spec_members(users: Seq<User>, ms: Seq<Membership>, tid: Seq<char>) -> Seq<User>
    decreases users.len(),
{
    if users.len() == 0 {
        Seq::<User>::empty()
    } else {
        let rest = spec_members(users.drop_last(), ms, tid);
        if is_member(ms, users.last().id@, tid) {
            rest.push(users.last())
        } else {
            rest
        }
    }
}

/// How many membership rows carry the user id `uid`.
pub open spec fn membership_count(ms: Seq<Membership>, uid: Seq<char>) -> nat
    decreases ms.len(),
{
    if ms.len() == 0 {
        0
    } else {
        membership_count(ms.drop_last(), uid) + (if ms.last().user_id@ == uid {
            1nat
        } else {
            0nat
        })
    }
}

proof fn lemma_membership_count_zero(ms: Seq<Membership>, uid: Seq<char>)
    requires
        forall|i: int| 0 <= i < ms.len() ==> ms[i].user_id@ != uid,
    ensures
        membership_count(ms, uid) == 0,
    decreases ms.len(),
{
    if ms.len() > 0 {
        assert(forall|i: int| 0 <= i < ms.drop_last().len() ==> ms.drop_last()[i] == ms[i]);
        lemma_membership_count_zero(ms.drop_last(), uid);
    }
}

/// The membership invariant in counted form: under `one_team_per_user` the
/// number of membership rows of any user is zero or one, never more.
pub proof fn lemma_at_most_one_membership(ms: Seq<Membership>, uid: Seq<char>)
    requires
        one_team_per_user(ms),
    ensures
        membership_count(ms, uid) <= 1,
    decreases ms.len(),
{
    if ms.len() > 0 {
        let prefix = ms.drop_last();
        assert(forall|i: int| 0 <= i < prefix.len() ==> prefix[i] == ms[i]);
        lemma_at_most_one_membership(prefix, uid);
        if ms.last().user_id@ == uid {
            assert(forall|i: int| 0 <= i < prefix.len() ==> prefix[i].user_id@ != uid);
            lemma_membership_count_zero(prefix, uid);
        }
    }
}

/// The in-memory model of the relational datastore.
#[derive(Debug)]
pub struct TeamStore {
    users: Vec<User>,
    teams: Vec<Team>,
    memberships: Vec<Membership>,
    next_id: u64,
}

impl User {
    /// A value-equal copy of this row.
    pub fn duplicate(&self) -> (r: User)
        ensures
            r == *self,
    {
        User {
            name: self.name.clone(),
            id: self.id.clone(),
            email: self.email.clone(),
            is_admin: self.is_admin,
        }
    }
}

impl Team {
    /// A value-equal copy of this row.
    pub fn duplicate(&self) -> (r: Team)
        ensures
            r == *self,
    {
        Team {
            id: self.id.clone(),
            name: self.name.clone(),
            film_name: self.film_name.clone(),
            film_description: self.film_description.clone(),
            has_file: self.has_file,
        }
    }
}

impl TeamStore {
    pub closed spec fn users(&self) -> Seq<User> {
        self.users@
    }

    pub closed spec fn teams(&self) -> Seq<Team> {
        self.teams@
    }

    pub closed spec fn memberships(&self) -> Seq<Membership> {
        self.memberships@
    }

    pub closed spec fn counter(&self) -> u64 {
        self.next_id
    }

    /// The next id-minting counter value, for callers that must check the
    /// machine limit before a creation.
    pub fn counter_value(&self) -> (r: u64)
        ensures
            r == self.counter(),
    {
        self.next_id
    }

    /// Well-formedness: unique user ids, unique team ids and names, the
    /// single-team invariant, membership rows pointing at existing teams,
    /// and every team id minted from a counter value already used up.
    pub open spec fn wf(&self) -> bool {
        &&& users_wf(self.users())
        &&& teams_wf(self.teams())
        &&& one_team_per_user(self.memberships())
        &&& membership_teams_exist(self.memberships(), self.teams())
        &&& ids_minted(self.teams(), self.counter() as nat)
    }

    /// Whether the caller may read team `tid`: a global admin may, and so
    /// may a member of that team.
    pub open spec fn can_access(&self, uid: Seq<char>, tid: Seq<char>) -> bool {
        (has_user(self.users(), uid) && spec_user_row(self.users(), uid).is_admin) || is_member(
            self.memberships(),
            uid,
            tid,
        )
    }

    pub fn new() -> (s: Self)
        ensures
            s.wf(),
            s.users() =~= Seq::<User>::empty(),
            s.teams() =~= Seq::<Team>::empty(),
            s.memberships() =~= Seq::<Membership>::empty(),
            s.counter() == 0,
    {
        TeamStore { users: Vec::new(), teams: Vec::new(), memberships: Vec::new(), next_id: 0 }
    }

    /// The index of the user row with id `uid`, if one exists.
    fn find_user(&self, uid: &String) -> (r: Option<usize>)
        ensures
            match r {
                Some(i) => i < self.users().len() && self.users()[i as int].id@ == uid@,
                None => !has_user(self.users(), uid@),
            },
    {
        let n = self.users.len();
        let mut i: usize = 0;
        while i < n
            invariant
                n == self.users().len(),
                i <= n,
                forall|k: int| 0 <= k < i ==> self.users()[k].id@ != uid@,
            decreases n - i,
        {
            if self.users[i].id.eq(uid) {
                return Some(i);
            }
            i += 1;
        }
        None
    }

    /// The index of the membership row of user `uid`, if one exists.
    fn find_membership(&self, uid: &String) -> (r: Option<usize>)
        ensures
            match r {
                Some(i) => i < self.memberships().len() && self.memberships()[i as int].user_id@
                    == uid@,
                None => !user_in_team(self.memberships(), uid@),
            },
    {
        let n = self.memberships.len();
        let mut i: usize = 0;
        while i < n
            invariant
                n == self.memberships().len(),
                i <= n,
                forall|k: int| 0 <= k < i ==> self.memberships()[k].user_id@ != uid@,
            decreases n - i,
        {
            if self.memberships[i].user_id.eq(uid) {
                return Some(i);
            }
            i += 1;
        }
        None
    }

    /// The index of the team row with id `tid`, if one exists.
    fn find_team_by_id(&self, tid: &String) -> (r: Option<usize>)
        ensures
            match r {
                Some(i) => i < self.teams().len() && self.teams()[i as int].id@ == tid@,
                None => !has_team_id(self.teams(), tid@),
            },
    {
        let n = self.teams.len();
        let mut i: usize = 0;
        while i < n
            invariant
                n == self.teams().len(),
                i <= n,
                forall|k: int| 0 <= k < i ==> self.teams()[k].id@ != tid@,
            decreases n - i,
        {
            if self.teams[i].id.eq(tid) {
                return Some(i);
            }
            i += 1;
        }
        None
    }

    /// The index of the team row named `name`, if one exists.
    fn find_team_by_name(&self, name: &String) -> (r: Option<usize>)
        ensures
            match r {
                Some(i) => i < self.teams().len() && self.teams()[i as int].name@ == name@,
                None => !has_team_name(self.teams(), name@),
            },
    {
        let n = self.teams.len();
        let mut i: usize = 0;
        while i < n
            invariant
                n == self.teams().len(),
                i <= n,
                forall|k: int| 0 <= k < i ==> self.teams()[k].name@ != name@,
            decreases n - i,
        {
            if self.teams[i].name.eq(name) {
                return Some(i);
            }
            i += 1;
        }
        None
    }

    /// Whether user `uid` holds membership in team `tid`.
    fn member_of(&self, uid: &String, tid: &String) -> (r: bool)
        ensures
            r == is_member(self.memberships(), uid@, tid@),
    {
        let n = self.memberships.len();
        let mut i: usize = 0;
        while i < n
            invariant
                n == self.memberships().len(),
                i <= n,
                forall|k: int|
                    0 <= k < i ==> !(self.memberships()[k].user_id@ == uid@
                        && self.memberships()[k].team_id@ == tid@),
            decreases n - i,
        {
            if self.memberships[i].user_id.eq(uid) && self.memberships[i].team_id.eq(tid) {
                return true;
            }
            i += 1;
        }
        false
    }

    /// The caller's user row, created on first sight: a known id returns its
    /// row unchanged; an unknown id inserts the identity's profile as a new
    /// non-admin row and returns it.
    pub fn get_user(&mut self, user: &AuthUser) -> (r: Result<User, Error>)
        requires
            old(self).wf(),
        ensures
            final (self).wf(),
            has_user(old(self).users(), user.id@) ==> *final (self) == *old(self) && r
                == Result::<User, Error>::Ok(spec_user_row(old(self).users(), user.id@)),
            !has_user(old(self).users(), user.id@) ==> {
                &&& r matches Ok(u)
                &&& u == (User { name: user.name, id: user.id, email: user.email, is_admin: false })
                &&& final (self).users() == old(self).users().push(u)
                &&& final (self).teams() == old(self).teams()
                &&& final (self).memberships() == old(self).memberships()
                &&& final (self).counter() == old(self).counter()
            },
    {
        match self.find_user(&user.id) {
            Some(i) => {
                let row = self.users[i].duplicate();
                proof {
                    let c = choose|k: int|
                        0 <= k < self.users().len() && self.users()[k].id@ == user.id@;
                    assert(self.users()[c].id@ == user.id@);
                    assert(c == i as int);
                }
                Ok(row)
            },
            None => {
                let row = User {
                    name: user.name.clone(),
                    id: user.id.clone(),
                    email: user.email.clone(),
                    is_admin: false,
                };
                let out = row.duplicate();
                self.users.push(row);
                proof {
                    assert forall|i: int, j: int|
                        0 <= i < j < self.users().len() implies self.users()[i].id@
                        != self.users()[j].id@ by {
                        if j < self.users().len() - 1 {
                            assert(old(self).users()[i].id@ != old(self).users()[j].id@);
                        }
                    }
                }
                Ok(out)
            },
        }
    }

    /// Writes the global admin flag of an existing user row, as the
    /// datastore's operator would; reports whether the row was found.
    pub fn set_admin(&mut self, uid: &String, flag: bool) -> (r: bool)
        requires
            old(self).wf(),
        ensures
            final (self).wf(),
            r == has_user(old(self).users(), uid@),
            !r ==> *final (self) == *old(self),
            r ==> {
                &&& exists|i: int|
                    {
                        &&& 0 <= i < old(self).users().len()
                        &&& old(self).users()[i].id@ == uid@
                        &&& final (self).users() == old(self).users().update(
                            i,
                            (User {
                                name: old(self).users()[i].name,
                                id: old(self).users()[i].id,
                                email: old(self).users()[i].email,
                                is_admin: flag,
                            }),
                        )
                    }
                &&& final (self).teams() == old(self).teams()
                &&& final (self).memberships() == old(self).memberships()
                &&& final (self).counter() == old(self).counter()
            },
    {
        let i = match self.find_user(uid) {
            Some(i) => i,
            None => {
                return false;
            },
        };
        let row = User {
            name: self.users[i].name.clone(),
            id: self.users[i].id.clone(),
            email: self.users[i].email.clone(),
            is_admin: flag,
        };
        self.users.set(i, row);
        proof {
            assert forall|a: int, b: int|
                0 <= a < b < self.users().len() implies self.users()[a].id@
                != self.users()[b].id@ by {
                assert(old(self).users()[a].id@ != old(self).users()[b].id@);
                assert(self.users()[a].id@ == old(self).users()[a].id@);
                assert(self.users()[b].id@ == old(self).users()[b].id@);
            }
        }
        true
    }

    /// Whether the caller's row carries the global admin flag; a caller with
    /// no row is not an admin.
    pub fn is_user_admin(&self, user: &AuthUser) -> (r: Result<bool, Error>)
        requires
            self.wf(),
        ensures
            r == Result::<bool, Error>::Ok(
                has_user(self.users(), user.id@) && spec_user_row(self.users(), user.id@).is_admin,
            ),
    {
        match self.find_user(&user.id) {
            Some(i) => {
                proof {
                    let c = choose|k: int|
                        0 <= k < self.users().len() && self.users()[k].id@ == user.id@;
                    assert(self.users()[c].id@ == user.id@);
                    assert(c == i as int);
                }
                Ok(self.users[i].is_admin)
            },
            None => Ok(false),
        }
    }

    /// The caller's current team: the team of their membership row, or
    /// nothing when they hold none.
    pub fn get_team(&self, user: &AuthUser) -> (r: Result<Option<Team>, Error>)
        requires
            self.wf(),
        ensures
            !user_in_team(self.memberships(), user.id@) ==> r == Result::<Option<Team>, Error>::Ok(
                None,
            ),
            user_in_team(self.memberships(), user.id@) ==> {
                &&& r matches Ok(Some(t))
                &&& is_member(self.memberships(), user.id@, t.id@)
                &&& t == spec_team_by_id(self.teams(), t.id@)
            },
    {
        match self.find_membership(&user.id) {
            None => Ok(None),
            Some(i) => {
                let tid = &self.memberships[i].team_id;
                match self.find_team_by_id(tid) {
                    Some(j) => {
                        let t = self.teams[j].duplicate();
                        proof {
                            let c = choose|k: int|
                                0 <= k < self.teams().len() && self.teams()[k].id@ == t.id@;
                            assert(self.teams()[c].id@ == t.id@);
                            assert(c == j as int);
                        }
                        Ok(Some(t))
                    },
                    None => {
                        proof {
                            assert(has_team_id(self.teams(), self.memberships()[i as int].team_id@));
                        }
                        Err(Error::InternalError)
                    },
                }
            },
        }
    }

    /// Every team row, for the admin listing.
    pub fn get_teams(&self) -> (r: Result<Vec<Team>, Error>)
        ensures
            r matches Ok(l) && l@ == self.teams(),
    {
        let n = self.teams.len();
        let mut out: Vec<Team> = Vec::new();
        let mut i: usize = 0;
        while i < n
            invariant
                n == self.teams().len(),
                i <= n,
                out@ =~= self.teams().take(i as int),
            decreases n - i,
        {
            out.push(self.teams[i].duplicate());
            proof {
                assert(out@ =~= self.teams().take(i + 1 as int));
            }
            i += 1;
        }
        proof {
            assert(self.teams().take(n as int) =~= self.teams());
        }
        Ok(out)
    }

    /// The guard the membership writes use: a caller already in a team is
    /// turned away with `InTeam`.
    pub fn in_team(&self, user: &AuthUser) -> (r: Result<(), Error>)
        ensures
            user_in_team(self.memberships(), user.id@) ==> r == Result::<(), Error>::Err(
                Error::InTeam,
            ),
            !user_in_team(self.memberships(), user.id@) ==> r == Result::<(), Error>::Ok(()),
    {
        match self.find_membership(&user.id) {
            Some(_) => Err(Error::InTeam),
            None => Ok(()),
        }
    }

    /// Joins an existing team: fails with `InTeam` for a caller already in a
    /// team and with `NoSuchTeam` for an unknown id, both leaving the store
    /// unchanged; otherwise inserts the one membership row and returns the
    /// joined team.
    pub fn join_team(&mut self, user: &AuthUser, team_id: String) -> (r: Result<Team, Error>)
        requires
            old(self).wf(),
        ensures
            final (self).wf(),
            user_in_team(old(self).memberships(), user.id@) ==> *final (self) == *old(self) && r
                == Result::<Team, Error>::Err(Error::InTeam),
            !user_in_team(old(self).memberships(), user.id@) && !has_team_id(
                old(self).teams(),
                team_id@,
            ) ==> *final (self) == *old(self) && (r matches Err(e) && e matches Error::NoSuchTeam(
                t,
            ) && t@ == team_id@),
            !user_in_team(old(self).memberships(), user.id@) && has_team_id(
                old(self).teams(),
                team_id@,
            ) ==> {
                &&& r matches Ok(t)
                &&& t == spec_team_by_id(old(self).teams(), team_id@)
                &&& final (self).memberships() == old(self).memberships().push(
                    Membership { user_id: user.id, team_id: t.id },
                )
                &&& final (self).users() == old(self).users()
                &&& final (self).teams() == old(self).teams()
                &&& final (self).counter() == old(self).counter()
            },
    {
        if let Some(_) = self.find_membership(&user.id) {
            return Err(Error::InTeam);
        }
        let j = match self.find_team_by_id(&team_id) {
            Some(j) => j,
            None => {
                return Err(Error::NoSuchTeam(team_id));
            },
        };
        let team = self.teams[j].duplicate();
        proof {
            let c = choose|k: int| 0 <= k < self.teams().len() && self.teams()[k].id@ == team_id@;
            assert(self.teams()[c].id@ == team_id@);
            assert(c == j as int);
        }
        self.memberships.push(Membership { user_id: user.id.clone(), team_id: team.id.clone() });
        proof {
            assert forall|a: int, b: int|
                0 <= a < b < self.memberships().len() implies self.memberships()[a].user_id@
                != self.memberships()[b].user_id@ by {
                if b < self.memberships().len() - 1 {
                    assert(old(self).memberships()[a].user_id@ != old(
                        self,
                    ).memberships()[b].user_id@);
                }
            }
            assert forall|a: int|
                0 <= a < self.memberships().len() implies has_team_id(
                self.teams(),
                #[trigger] self.memberships()[a].team_id@,
            ) by {
                if a < self.memberships().len() - 1 {
                    assert(has_team_id(old(self).teams(), old(self).memberships()[a].team_id@));
                }
            }
        }
        Ok(team)
    }

    /// Creates a team and its creator's membership as one atomic unit: fails
    /// with `InTeam` for a caller already in a team and with `TeamNameTaken`
    /// for a name already claimed, both leaving the store unchanged;
    /// otherwise appends exactly one team row under a freshly minted id and
    /// one membership row linking the caller to it.
    pub fn create_team(&mut self, user: &AuthUser, team_name: String) -> (r: Result<Team, Error>)
        requires
            old(self).wf(),
            old(self).counter() < u64::MAX,
        ensures
            final (self).wf(),
            user_in_team(old(self).memberships(), user.id@) ==> *final (self) == *old(self) && r
                == Result::<Team, Error>::Err(Error::InTeam),
            !user_in_team(old(self).memberships(), user.id@) && has_team_name(
                old(self).teams(),
                team_name@,
            ) ==> *final (self) == *old(self) && (r matches Err(e) && e
                matches Error::TeamNameTaken(t) && t@ == team_name@),
            !user_in_team(old(self).memberships(), user.id@) && !has_team_name(
                old(self).teams(),
                team_name@,
            ) ==> {
                &&& r matches Ok(t)
                &&& t.id@ == spec_decimal(old(self).counter() as nat)
                &&& t.name@ == team_name@
                &&& t.film_name@ == Seq::<char>::empty()
                &&& t.film_description@ == Seq::<char>::empty()
                &&& t.has_file == false
                &&& final (self).teams() == old(self).teams().push(t)
                &&& final (self).memberships() == old(self).memberships().push(
                    Membership { user_id: user.id, team_id: t.id },
                )
                &&& final (self).users() == old(self).users()
                &&& final (self).counter() == old(self).counter() + 1
            },
    {
        if let Some(_) = self.find_membership(&user.id) {
            return Err(Error::InTeam);
        }
        if let Some(_) = self.find_team_by_name(&team_name) {
            return Err(Error::TeamNameTaken(team_name));
        }
        let id = u64_to_string(self.next_id);
        let team = Team {
            id,
            name: team_name,
            film_name: String::new(),
            film_description: String::new(),
            has_file: false,
        };
        let out = team.duplicate();
        proof {
            assert forall|k: int| 0 <= k < self.teams().len() implies self.teams()[k].id@
                != team.id@ by {
                let m = choose|m: nat|
                    m < self.counter() && self.teams()[k].id@ == spec_decimal(m);
                if self.teams()[k].id@ == team.id@ {
                    lemma_decimal_injective(m, self.counter() as nat);
                }
            }
        }
        self.memberships.push(Membership { user_id: user.id.clone(), team_id: team.id.clone() });
        self.teams.push(team);
        self.next_id = self.next_id + 1;
        proof {
            let teams = self.teams();
            let ms = self.memberships();
            assert forall|a: int, b: int| 0 <= a < b < teams.len() implies teams[a].id@
                != teams[b].id@ && teams[a].name@ != teams[b].name@ by {
                if b < teams.len() - 1 {
                    assert(old(self).teams()[a].id@ != old(self).teams()[b].id@);
                    assert(old(self).teams()[a].name@ != old(self).teams()[b].name@);
                }
            }
            assert forall|a: int, b: int| 0 <= a < b < ms.len() implies ms[a].user_id@
                != ms[b].user_id@ by {
                if b < ms.len() - 1 {
                    assert(old(self).memberships()[a].user_id@ != old(
                        self,
                    ).memberships()[b].user_id@);
                }
            }
            assert forall|a: int| 0 <= a < ms.len() implies has_team_id(
                teams,
                #[trigger] ms[a].team_id@,
            ) by {
                if a < ms.len() - 1 {
                    assert(has_team_id(old(self).teams(), old(self).memberships()[a].team_id@));
                    let w = choose|w: int|
                        0 <= w < old(self).teams().len() && old(self).teams()[w].id@ == old(
                            self,
                        ).memberships()[a].team_id@;
                    assert(teams[w].id@ == ms[a].team_id@);
                } else {
                    assert(teams[teams.len() - 1].id@ == ms[a].team_id@);
                }
            }
            assert forall|a: int| 0 <= a < teams.len() implies exists|k: nat|
                k < self.counter() && #[trigger] teams[a].id@ == spec_decimal(k) by {
                if a < teams.len() - 1 {
                    let m = choose|m: nat|
                        m < old(self).counter() && old(self).teams()[a].id@ == spec_decimal(m);
                    assert(m < self.counter() && teams[a].id@ == spec_decimal(m));
                } else {
                    assert(teams[a].id@ == spec_decimal(old(self).counter() as nat));
                    assert((old(self).counter() as nat) < self.counter() as nat);
                }
            }
        }
        Ok(out)
    }

    /// Whether the caller may read team `team_code`: admins and members may;
    /// anyone else is turned away with `TeamAccessDenied`.
    pub fn in_specific_team(&self, user: &AuthUser, team_code: String) -> (r: Result<(), Error>)
        requires
            self.wf(),
        ensures
            self.can_access(user.id@, team_code@) ==> r == Result::<(), Error>::Ok(()),
            !self.can_access(user.id@, team_code@) ==> (r matches Err(e) && e
                matches Error::TeamAccessDenied(t) && t@ == team_code@),
    {
        let admin = match self.is_user_admin(user) {
            Ok(b) => b,
            Err(_) => false,
        };
        if admin || self.member_of(&user.id, &team_code) {
            Ok(())
        } else {
            Err(Error::TeamAccessDenied(team_code))
        }
    }

    /// The member identities of team `team_code`: the full current list for
    /// an admin or a member of that team (empty when the team has none), and
    /// `TeamAccessDenied` for anyone else.
    pub fn get_team_members(&self, user: &AuthUser, team_code: String) -> (r: Result<
        Vec<User>,
        Error,
    >)
        requires
            self.wf(),
        ensures
            self.can_access(user.id@, team_code@) ==> (r matches Ok(l) && l@ == spec_members(
                self.users(),
                self.memberships(),
                team_code@,
            )),
            !self.can_access(user.id@, team_code@) ==> (r matches Err(e) && e
                matches Error::TeamAccessDenied(t) && t@ == team_code@),
    {
        if let Err(e) = self.in_specific_team(user, team_code.clone()) {
            return Err(e);
        }
        let n = self.users.len();
        let mut out: Vec<User> = Vec::new();
        let mut i: usize = 0;
        while i < n
            invariant
                n == self.users().len(),
                i <= n,
                out@ =~= spec_members(self.users().take(i as int), self.memberships(), team_code@),
            decreases n - i,
        {
            proof {
                assert(self.users().take(i + 1 as int).drop_last() =~= self.users().take(i as int));
                assert(self.users().take(i + 1 as int).last() == self.users()[i as int]);
            }
            if self.member_of(&self.users[i].id, &team_code) {
                out.push(self.users[i].duplicate());
            }
            i += 1;
        }
        proof {
            assert(self.users().take(n as int) =~= self.users());
        }
        Ok(out)
    }

    /// Removes the caller's membership row: fails with `NotInTeam`, leaving
    /// the store unchanged, for a caller in no team; otherwise deletes
    /// exactly that one row.
    pub fn leave_team(&mut self, user: &AuthUser) -> (r: Result<(), Error>)
        requires
            old(self).wf(),
        ensures
            final (self).wf(),
            !user_in_team(old(self).memberships(), user.id@) ==> *final (self) == *old(self) && r
                == Result::<(), Error>::Err(Error::NotInTeam),
            user_in_team(old(self).memberships(), user.id@) ==> {
                &&& r == Result::<(), Error>::Ok(())
                &&& exists|j: int|
                    0 <= j < old(self).memberships().len() && old(
                        self,
                    ).memberships()[j].user_id@ == user.id@ && final (self).memberships() == old(
                        self,
                    ).memberships().remove(j)
                &&& !user_in_team(final (self).memberships(), user.id@)
                &&& final (self).users() == old(self).users()
                &&& final (self).teams() == old(self).teams()
                &&& final (self).counter() == old(self).counter()
            },
    {
        let i = match self.find_membership(&user.id) {
            Some(i) => i,
            None => {
                return Err(Error::NotInTeam);
            },
        };
        self.memberships.remove(i);
        proof {
            old(self).memberships().remove_ensures(i as int);
            let ms = self.memberships();
            assert forall|a: int, b: int| 0 <= a < b < ms.len() implies ms[a].user_id@
                != ms[b].user_id@ by {
                let a0 = if a < i as int {
                    a
                } else {
                    a + 1
                };
                let b0 = if b < i as int {
                    b
                } else {
                    b + 1
                };
                assert(ms[a] == old(self).memberships()[a0]);
                assert(ms[b] == old(self).memberships()[b0]);
            }
            assert forall|a: int| 0 <= a < ms.len() implies has_team_id(
                self.teams(),
                #[trigger] ms[a].team_id@,
            ) by {
                let a0 = if a < i as int {
                    a
                } else {
                    a + 1
                };
                assert(ms[a] == old(self).memberships()[a0]);
                assert(has_team_id(old(self).teams(), old(self).memberships()[a0].team_id@));
            }
            assert forall|a: int| 0 <= a < ms.len() implies ms[a].user_id@ != user.id@ by {
                let a0 = if a < i as int {
                    a
                } else {
                    a + 1
                };
                assert(ms[a] == old(self).memberships()[a0]);
                if a0 != i as int {
                    assert(old(self).memberships()[a0].user_id@ != old(
                        self,
                    ).memberships()[i as int].user_id@);
                }
            }
        }
        Ok(())
    }
}

/// After a successful creation of a team named `name`, that name is claimed,
/// so by `create_team`'s contract a second creation under the same name must
/// fail with `TeamNameTaken` and change nothing: of two racing creations at
/// most one succeeds.
pub proof fn lemma_create_name_conflict(before: Seq<Team>, after: Seq<Team>, t: Team)
    requires
        after == before.push(t),
    ensures
        has_team_name(after, t.name@),
{
    assert(after[after.len() - 1].name@ == t.name@);
}

} // verus!
