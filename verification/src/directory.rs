//! The user directory: the mapping from a provider-issued subject id to a
//! local user id, with first-sight creation. A subject id is linked to at
//! most one user, ever; usernames, where the deployment uses them, are
//! unique and held to the username grammar. Both shapes of user record — a
//! chosen username, or provider-derived profile fields — live behind the
//! same interface.

use vstd::prelude::*;
use crate::strutil::str_eq;
use crate::username::{
    MAX_USERNAME_LEN,
    MIN_USERNAME_LEN,
    UsernameValidationError,
    username_chars_ok,
    valid_username,
    validate_potential_username,
};

verus! {

/// The two per-deployment shapes of a user record: a caller-chosen username,
/// or the profile fields the identity provider attested.
pub enum UserProfile {
    Named { username: String },
    Provider { name: String, email: String },
}

/// One stored user: an id the directory assigned, and the profile.
pub struct UserRecord {
    pub id: i32,
    pub profile: UserProfile,
}

/// The view of a profile, for contracts.
pub ghost enum ProfileView {
    Named { username: Seq<char> },
    Provider { name: Seq<char>, email: Seq<char> },
}

/// The view of one stored user.
pub ghost struct UserView {
    pub id: i32,
    pub profile: ProfileView,
}

impl View for UserRecord {
    type V = UserView;

    open spec fn view(&self) -> UserView {
        UserView {
            id: self.id,
            profile: match self.profile {
                UserProfile::Named { username } => ProfileView::Named { username: username@ },
                UserProfile::Provider { name, email } => ProfileView::Provider {
                    name: name@,
                    email: email@,
                },
            },
        }
    }
}

/// The view of the whole directory: the stored users, the subject-id links,
/// and the next id to assign.
pub ghost struct DirectoryView {
    pub users: Seq<UserView>,
    pub links: Seq<(Seq<char>, i32)>,
    pub next_id: i32,
}

/// The user id the first link for `subject` points at, if any.
pub open spec fn spec_find_link(links: Seq<(Seq<char>, i32)>, subject: Seq<char>) -> Option<i32>
    decreases links.len(),
{
    if links.len() == 0 {
        None
    } else if links[0].0 == subject {
        Some(links[0].1)
    } else {
        spec_find_link(links.drop_first(), subject)
    }
}

/// Some stored user carries `username` as its chosen name.
pub open spec fn spec_username_taken(users: Seq<UserView>, username: Seq<char>) -> bool {
    exists|i: int|
        0 <= i < users.len() && (#[trigger] users[i]).profile == (ProfileView::Named { username })
}

/// The directory's invariant: ids are positive, below the next id, and
/// unique; chosen usernames are unique; a subject id is linked at most once;
/// and every link points at a stored user.
pub open spec fn directory_wf(d: DirectoryView) -> bool {
    &&& 1 <= d.next_id
    &&& forall|i: int| 0 <= i < d.users.len() ==> 1 <= (#[trigger] d.users[i]).id < d.next_id
    &&& forall|i: int, j: int|
        0 <= i < d.users.len() && 0 <= j < d.users.len() && i != j ==> (#[trigger] d.users[i]).id
            != (#[trigger] d.users[j]).id
    &&& forall|i: int, j: int|
        0 <= i < d.users.len() && 0 <= j < d.users.len() && i != j && (#[trigger] d.users[i]).profile is Named
            && (#[trigger] d.users[j]).profile is Named ==> d.users[i].profile
            != d.users[j].profile
    &&& forall|i: int, j: int|
        0 <= i < d.links.len() && 0 <= j < d.links.len() && i != j ==> (#[trigger] d.links[i]).0
            != (#[trigger] d.links[j]).0
    &&& forall|i: int|
        0 <= i < d.links.len() ==> exists|j: int|
            0 <= j < d.users.len() && (#[trigger] d.users[j]).id == (#[trigger] d.links[i]).1
}

/// What `create` decides and changes, in order: an already-linked subject
/// reuses its user id and changes nothing; then the username grammar is
/// checked, character class before lengths; then uniqueness; only then is a
/// user stored, under the next id, and the subject linked to it.
pub open spec fn create_spec(d: DirectoryView, subject: Seq<char>, username: Seq<char>) -> (Result<
    i32,
    UsernameValidationError,
>, DirectoryView) {
    match spec_find_link(d.links, subject) {
        Some(uid) => (Ok(uid), d),
        None => {
            if !username_chars_ok(username) {
                (Err(UsernameValidationError::IllegalCharacters), d)
            } else if username.len() < MIN_USERNAME_LEN as int {
                (Err(UsernameValidationError::TooShort), d)
            } else if username.len() > MAX_USERNAME_LEN as int {
                (Err(UsernameValidationError::TooLong), d)
            } else if spec_username_taken(d.users, username) {
                (Err(UsernameValidationError::AlreadyTaken), d)
            } else {
                (
                    Ok(d.next_id),
                    DirectoryView {
                        users: d.users.push(
                            UserView { id: d.next_id, profile: ProfileView::Named { username } },
                        ),
                        links: d.links.push((subject, d.next_id)),
                        next_id: (d.next_id + 1) as i32,
                    },
                )
            }
        },
    }
}

/// What `resolve_or_create` decides and changes: an already-linked subject
/// reuses its user id; a new one is stored with the provider-derived profile
/// and linked.
pub open spec fn resolve_or_create_spec(
    d: DirectoryView,
    subject: Seq<char>,
    name: Seq<char>,
    email: Seq<char>,
) -> (i32, DirectoryView) {
    match spec_find_link(d.links, subject) {
        Some(uid) => (uid, d),
        None => (
            d.next_id,
            DirectoryView {
                users: d.users.push(
                    UserView { id: d.next_id, profile: ProfileView::Provider { name, email } },
                ),
                links: d.links.push((subject, d.next_id)),
                next_id: (d.next_id + 1) as i32,
            },
        ),
    }
}

proof fn lemma_find_link_step(links: Seq<(Seq<char>, i32)>, subject: Seq<char>, i: int)
    requires
        0 <= i <= links.len(),
        forall|j: int| 0 <= j < i ==> (#[trigger] links[j]).0 != subject,
    ensures
        spec_find_link(links, subject) == spec_find_link(
            links.subrange(i, links.len() as int),
            subject,
        ),
    decreases i,
{
    if i == 0 {
        assert(links.subrange(0, links.len() as int) =~= links);
    } else {
        assert(links.drop_first() =~= links.subrange(1, links.len() as int));
        assert(forall|j: int|
            0 <= j < i - 1 ==> (#[trigger] links.subrange(1, links.len() as int)[j]).0 != subject);
        lemma_find_link_step(links.subrange(1, links.len() as int), subject, i - 1);
        assert(links.subrange(1, links.len() as int).subrange(i - 1, links.len() - 1)
            =~= links.subrange(i, links.len() as int));
    }
}

/// A subject that `spec_find_link` does not find appears in no link at all.
pub proof fn lemma_find_link_none(links: Seq<(Seq<char>, i32)>, subject: Seq<char>)
    requires
        spec_find_link(links, subject) is None,
    ensures
        forall|i: int| 0 <= i < links.len() ==> (#[trigger] links[i]).0 != subject,
    decreases links.len(),
{
    if links.len() > 0 {
        lemma_find_link_none(links.drop_first(), subject);
        assert forall|i: int| 0 <= i < links.len() implies (#[trigger] links[i]).0 != subject by {
            if i > 0 {
                assert(links.drop_first()[i - 1] == links[i]);
            }
        }
    }
}

/// Appending a link for a subject that had none makes it the one found.
pub proof fn lemma_find_link_append(
    links: Seq<(Seq<char>, i32)>,
    subject: Seq<char>,
    entry: (Seq<char>, i32),
)
    requires
        spec_find_link(links, subject) is None,
    ensures
        spec_find_link(links.push(entry), subject) == (if entry.0 == subject {
            Some(entry.1)
        } else {
            Option::<i32>::None
        }),
    decreases links.len(),
{
    if links.len() == 0 {
        assert(links.push(entry)[0] == entry);
        assert(links.push(entry).drop_first() =~= Seq::<(Seq<char>, i32)>::empty());
        assert(spec_find_link(Seq::<(Seq<char>, i32)>::empty(), subject) is None);
    } else {
        assert(links.push(entry)[0] == links[0]);
        assert(links[0].0 != subject);
        lemma_find_link_append(links.drop_first(), subject, entry);
        assert(links.push(entry).drop_first() =~= links.drop_first().push(entry));
    }
}

/// Storing one fresh user under the next id, and linking a so-far-unlinked
/// subject to it, keeps every clause of the invariant.
proof fn lemma_insert_user_preserves_wf(
    d: DirectoryView,
    subject: Seq<char>,
    profile: ProfileView,
    d2: DirectoryView,
)
    requires
        directory_wf(d),
        d.next_id < i32::MAX,
        spec_find_link(d.links, subject) is None,
        profile matches ProfileView::Named { username } ==> !spec_username_taken(d.users, username),
        d2 == (DirectoryView {
            users: d.users.push(UserView { id: d.next_id, profile }),
            links: d.links.push((subject, d.next_id)),
            next_id: (d.next_id + 1) as i32,
        }),
    ensures
        directory_wf(d2),
{
    lemma_find_link_none(d.links, subject);
    let nu = d.users.len() as int;
    let nl = d.links.len() as int;
    assert forall|i: int, j: int|
        0 <= i < d2.users.len() && 0 <= j < d2.users.len() && i != j
            && (#[trigger] d2.users[i]).profile is Named
            && (#[trigger] d2.users[j]).profile is Named implies d2.users[i].profile
        != d2.users[j].profile by {
        if i == nu && j < nu {
            if d2.users[j].profile == profile {
                assert(spec_username_taken(d.users, profile->Named_username));
            }
        } else if j == nu && i < nu {
            if d2.users[i].profile == profile {
                assert(spec_username_taken(d.users, profile->Named_username));
            }
        }
    }
    assert forall|i: int| 0 <= i < d2.links.len() implies exists|j: int|
        0 <= j < d2.users.len() && (#[trigger] d2.users[j]).id == (#[trigger] d2.links[i]).1 by {
        if i < nl {
            let j = choose|j: int| 0 <= j < nu && (#[trigger] d.users[j]).id == d.links[i].1;
            assert(d2.users[j].id == d2.links[i].1);
        } else {
            assert(d2.users[nu].id == d2.links[i].1);
        }
    }
}

/// The directory itself. Its contents are reached only through the
/// operations below, which keep `directory_wf`.
pub struct UserDirectory {
    users: Vec<UserRecord>,
    links: Vec<(String, i32)>,
    next_id: i32,
}

impl View for UserDirectory {
    type V = DirectoryView;

    closed spec fn view(&self) -> DirectoryView {
        DirectoryView {
            users: self.users@.map_values(|u: UserRecord| u@),
            links: self.links@.map_values(|l: (String, i32)| (l.0@, l.1)),
            next_id: self.next_id,
        }
    }
}

impl UserDirectory {
    /// The invariant, as a predicate on the directory.
    pub open spec fn wf(&self) -> bool {
        directory_wf(self@)
    }

    /// An empty directory: no users, no links, ids start at 1.
    pub fn new() -> (r: UserDirectory)
        ensures
            r.wf(),
            r@.users == Seq::<UserView>::empty(),
            r@.links == Seq::<(Seq<char>, i32)>::empty(),
            r@.next_id == 1,
    {
        let r = UserDirectory { users: Vec::new(), links: Vec::new(), next_id: 1 };
        proof {
            assert(r@.users =~= Seq::<UserView>::empty());
            assert(r@.links =~= Seq::<(Seq<char>, i32)>::empty());
        }
        r
    }

    /// How many users are stored.
    pub fn user_count(&self) -> (r: usize)
        ensures
            r == self@.users.len(),
    {
        self.users.len()
    }

    /// Looks a subject id up, exactly as `spec_find_link` says: the first
    /// link wins (under `directory_wf` there is at most one).
    pub fn find_by_subject(&self, subject: &str) -> (r: Option<i32>)
        ensures
            r == spec_find_link(self@.links, subject@),
    {
        let n = self.links.len();
        let mut i: usize = 0;
        while i < n
            invariant
                0 <= i <= n,
                n == self.links@.len(),
                self@.links.len() == n,
                forall|j: int| 0 <= j < n ==> self@.links[j] == (self.links@[j].0@, self.links@[j].1),
                forall|j: int| 0 <= j < i ==> (#[trigger] self@.links[j]).0 != subject@,
            decreases n - i,
        {
            let entry = &self.links[i];
            if str_eq(entry.0.as_str(), subject) {
                proof {
                    lemma_find_link_step(self@.links, subject@, i as int);
                    assert(self@.links.subrange(i as int, n as int)[0] == self@.links[i as int]);
                }
                return Some(entry.1);
            }
            i = i + 1;
        }
        proof {
            lemma_find_link_step(self@.links, subject@, n as int);
            assert(self@.links.subrange(n as int, n as int).len() == 0);
        }
        None
    }

    /// Whether some stored user already carries this chosen username.
    pub fn username_taken(&self, username: &str) -> (r: bool)
        ensures
            r == spec_username_taken(self@.users, username@),
    {
        let n = self.users.len();
        let mut i: usize = 0;
        while i < n
            invariant
                0 <= i <= n,
                n == self.users@.len(),
                self@.users.len() == n,
                forall|j: int| 0 <= j < n ==> self@.users[j] == self.users@[j]@,
                forall|j: int|
                    0 <= j < i ==> (#[trigger] self@.users[j]).profile != (ProfileView::Named {
                        username: username@,
                    }),
            decreases n - i,
        {
            let hit = match &self.users[i].profile {
                UserProfile::Named { username: u } => str_eq(u.as_str(), username),
                UserProfile::Provider { .. } => false,
            };
            if hit {
                proof {
                    assert((self@.users[i as int]).profile == (ProfileView::Named {
                        username: username@,
                    }));
                }
                return true;
            }
            i = i + 1;
        }
        false
    }

    /// Creates a user for a chosen username, exactly as `create_spec` says:
    /// an already-linked subject reuses its user id without touching
    /// anything; a rejected username reports its exact grammar error, with
    /// uniqueness checked last as `AlreadyTaken`; otherwise the user is
    /// stored under the next id and the subject linked to it. The invariant
    /// is kept either way. The id space must not be exhausted.
    pub fn create(&mut self, subject: &str, username: &str) -> (r: Result<
        i32,
        UsernameValidationError,
    >)
        requires
            old(self).wf(),
            old(self)@.next_id < i32::MAX,
        ensures
            final(self).wf(),
            r == create_spec(old(self)@, subject@, username@).0,
            final(self)@ == create_spec(old(self)@, subject@, username@).1,
    {
        let ghost d0 = self@;
        match self.find_by_subject(subject) {
            Some(uid) => {
                return Ok(uid);
            },
            None => {},
        }
        match validate_potential_username(username) {
            Err(e) => {
                return Err(e);
            },
            Ok(()) => {},
        }
        if self.username_taken(username) {
            return Err(UsernameValidationError::AlreadyTaken);
        }
        let id = self.next_id;
        let ghost old_users = self@.users;
        let ghost old_links = self@.links;
        self.users.push(
            UserRecord { id, profile: UserProfile::Named { username: String::from_str(username) } },
        );
        self.links.push((String::from_str(subject), id));
        self.next_id = id + 1;
        proof {
            let added = UserView { id, profile: ProfileView::Named { username: username@ } };
            assert(self@.users =~= old_users.push(added));
            assert(self@.links =~= old_links.push((subject@, id)));
            lemma_insert_user_preserves_wf(
                d0,
                subject@,
                ProfileView::Named { username: username@ },
                self@,
            );
        }
        Ok(id)
    }

    /// Resolves a subject id to its user, creating the user from the
    /// provider-attested profile fields on first sight, exactly as
    /// `resolve_or_create_spec` says. The invariant is kept either way.
    /// The id space must not be exhausted.
    pub fn resolve_or_create(&mut self, subject: &str, name: &str, email: &str) -> (r: i32)
        requires
            old(self).wf(),
            old(self)@.next_id < i32::MAX,
        ensures
            final(self).wf(),
            r == resolve_or_create_spec(old(self)@, subject@, name@, email@).0,
            final(self)@ == resolve_or_create_spec(old(self)@, subject@, name@, email@).1,
    {
        let ghost d0 = self@;
        match self.find_by_subject(subject) {
            Some(uid) => {
                return uid;
            },
            None => {},
        }
        let id = self.next_id;
        let ghost old_users = self@.users;
        let ghost old_links = self@.links;
        self.users.push(
            UserRecord {
                id,
                profile: UserProfile::Provider {
                    name: String::from_str(name),
                    email: String::from_str(email),
                },
            },
        );
        self.links.push((String::from_str(subject), id));
        self.next_id = id + 1;
        proof {
            let added = UserView {
                id,
                profile: ProfileView::Provider { name: name@, email: email@ },
            };
            assert(self@.users =~= old_users.push(added));
            assert(self@.links =~= old_links.push((subject@, id)));
            lemma_insert_user_preserves_wf(
                d0,
                subject@,
                ProfileView::Provider { name: name@, email: email@ },
                self@,
            );
        }
        id
    }
}

/// Law: for one new subject id, two create attempts — however they
/// interleave with each other's outcome — yield exactly one stored user. If
/// the first create wins and stores a user, the second observes the link it
/// committed, returns the same user id, and stores nothing, whatever
/// username it asked for.
pub proof fn lemma_second_create_reuses_link(
    d: DirectoryView,
    subject: Seq<char>,
    u1: Seq<char>,
    u2: Seq<char>,
)
    requires
        directory_wf(d),
        spec_find_link(d.links, subject) is None,
        create_spec(d, subject, u1).0 is Ok,
    ensures
        ({
            let (r1, d1) = create_spec(d, subject, u1);
            let (r2, d2) = create_spec(d1, subject, u2);
            &&& r2 == Ok::<i32, UsernameValidationError>(r1.unwrap())
            &&& d2 == d1
        }),
{
    let (r1, d1) = create_spec(d, subject, u1);
    lemma_find_link_append(d.links, subject, (subject, d.next_id));
    assert(spec_find_link(d1.links, subject) == Some(d.next_id));
}

} // verus!
