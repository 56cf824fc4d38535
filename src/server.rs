use crate::error::Error;
use crate::session::{
    login_fits, records, state_wf, str_of, with_login, with_success, is_query_page,
    LoginAttempt, LoginAttemptId, SessionId, SessionManager, SessionState, Timestamp, UserId,
    MAX_ROWS,
};
use vstd::prelude::*;

verus! {

/// Changes to a user's record: each field that is `Some` replaces the
/// current value.
#[derive(Debug, Default)]
pub struct UserMetadata {
    pub name: Option<String>,
    pub email: Option<String>,
}

/// The value that a change leaves: the new one if given, else the current.
pub open spec fn changed(new: Option<String>, current: Seq<char>) -> Seq<char> {
    match new {
        Some(s) => s@,
        None => current,
    }
}

/// What the directory holds of a user.
pub struct UserRecord {
    pub id: UserId,
    pub name: Seq<char>,
    pub email: Seq<char>,
    pub inactive: bool,
    pub verified: bool,
}

/// A registered user.
#[derive(Debug)]
pub struct User {
    id: UserId,
    name: String,
    email: String,
    inactive: bool,
    verified: bool,
}

impl View for User {
    type V = UserRecord;

    closed spec fn view(&self) -> UserRecord {
        UserRecord {
            id: self.id,
            name: self.name@,
            email: self.email@,
            inactive: self.inactive,
            verified: self.verified,
        }
    }
}

impl User {
    pub fn user_id(&self) -> (r: UserId)
        ensures
            r == self@.id,
    {
        self.id
    }

    pub fn name(&self) -> (r: &str)
        ensures
            r@ == self@.name,
    {
        self.name.as_str()
    }

    pub fn email(&self) -> (r: &str)
        ensures
            r@ == self@.email,
    {
        self.email.as_str()
    }

    pub fn is_active(&self) -> (r: bool)
        ensures
            r == !self@.inactive,
    {
        !self.inactive
    }

    pub fn is_verified(&self) -> (r: bool)
        ensures
            r == self@.verified,
    {
        self.verified
    }

    fn duplicate(&self) -> (r: User)
        ensures
            r@ == self@,
    {
        User {
            id: self.id,
            name: self.name.clone(),
            email: self.email.clone(),
            inactive: self.inactive,
            verified: self.verified,
        }
    }
}

/// The whole service state: the directory, each user's secret (by position),
/// and the audit log with its sessions.
pub struct ServerState {
    pub users: Seq<UserRecord>,
    pub secrets: Seq<Seq<char>>,
    pub store: SessionState,
}

/// `s` is the user's name or email.
pub open spec fn known_as(u: UserRecord, s: Seq<char>) -> bool {
    u.name == s || u.email == s
}

/// The user whom the directory resolves `s` to: the one known by that name
/// or email, or nobody if there is none.
pub open spec fn resolved_user(users: Seq<UserRecord>, s: Seq<char>) -> Option<UserId> {
    if exists|i: int| 0 <= i < users.len() && known_as(#[trigger] users[i], s) {
        let i = choose|i: int| 0 <= i < users.len() && known_as(#[trigger] users[i], s);
        Some((i + 1) as UserId)
    } else {
        None
    }
}

/// The user `id` is registered.
pub open spec fn registered(st: ServerState, id: UserId) -> bool {
    1 <= id <= st.users.len()
}

/// The secret matches the stored credential of a resolved user.
pub open spec fn credential_ok(st: ServerState, user: Option<UserId>, secret: Seq<char>) -> bool {
    user matches Some(id) && registered(st, id) && st.secrets[id - 1] == secret
}

/// The invariant of the service: user identifiers are positions counted from
/// one, no name or email stands for two users, every user has a secret, and
/// the store keeps its own invariant.
pub open spec fn server_wf(st: ServerState) -> bool {
    &&& st.users.len() <= MAX_ROWS
    &&& st.secrets.len() == st.users.len()
    &&& forall|i: int| 0 <= i < st.users.len() ==> #[trigger] st.users[i].id == i + 1
    &&& forall|i: int, j: int|
        #![trigger st.users[i], st.users[j]]
        0 <= i < st.users.len() && 0 <= j < st.users.len() && i != j ==> !known_as(
            st.users[j],
            st.users[i].name,
        ) && !known_as(st.users[j], st.users[i].email)
    &&& state_wf(st.store)
}

/// What an authentication call returns once its transaction fits in the store.
pub open spec fn login_outcome(ok: bool, store: SessionState) -> Result<SessionId, Error> {
    if ok {
        Ok((store.sessions.len() + 1) as SessionId)
    } else {
        Err(Error::AuthenticationFailed)
    }
}

/// What one authentication call did, given the user it resolved and the
/// instant it ran at: the directory and credentials are untouched; if the
/// transaction fits in the store, the attempt (and, on success, a session)
/// is written and the call answers by `login_outcome`; otherwise the call
/// fails with `StorageFailure` and nothing changes.
pub open spec fn login_effect(
    before: ServerState,
    after: ServerState,
    r: Result<SessionId, Error>,
    user: Option<UserId>,
    username_or_email: Option<Seq<char>>,
    secret: Seq<char>,
    remote_address: Option<Seq<char>>,
    now: Timestamp,
) -> bool {
    let ok = credential_ok(before, user, secret);
    &&& after.users == before.users
    &&& after.secrets == before.secrets
    &&& if login_fits(before.store, ok) {
        &&& after.store == with_login(
            before.store,
            user,
            username_or_email,
            remote_address,
            ok,
            now,
        )
        &&& r == login_outcome(ok, before.store)
    } else {
        r == Err::<SessionId, Error>(Error::StorageFailure) && after == before
    }
}

/// Relies on std's SystemTime::now and SystemTime::duration_since: the time
/// elapsed since the Unix epoch, as whole seconds and the nanoseconds below
/// one second, or `None` when the system clock reads before the epoch.
/// Nothing is known of the instant itself.
#[verifier::external_body]
fn since_epoch() -> (r: Option<(u64, u32)>)
    ensures
        r matches Some(d) ==> d.1 < 1_000_000_000,
{
    std::time::SystemTime::now()
        .duration_since(std::time::UNIX_EPOCH)
        .ok()
        .map(|d| (d.as_secs(), d.subsec_nanos()))
}

/// Relies on chrono's DateTime::from_timestamp, which is `None` outside the
/// range of dates chrono holds, and DateTime::timestamp_micros: the instant
/// `secs` seconds and `nanos` nanoseconds after the epoch, in microseconds.
#[verifier::external_body]
fn micros_at(secs: i64, nanos: u32) -> (r: Option<Timestamp>)
    requires
        nanos < 1_000_000_000,
    ensures
        r matches Some(m) ==> m == secs * 1_000_000 + nanos / 1000,
{
    chrono::DateTime::from_timestamp(secs, nanos).map(|t| t.timestamp_micros())
}

/// The current instant of the system clock, or `None` when the clock reads
/// before the epoch or past the dates that can be stamped.
fn clock_now() -> (r: Option<Timestamp>) {
    match since_epoch() {
        Some((secs, nanos)) => {
            if secs > i64::MAX as u64 {
                None
            } else {
                micros_at(secs as i64, nanos)
            }
        },
        None => None,
    }
}

/// The authentication service: users, their credentials, and the audit log
/// and sessions of their logins.
pub struct Server {
    users: Vec<User>,
    secrets: Vec<String>,
    sessions: SessionManager,
}

impl View for Server {
    type V = ServerState;

    closed spec fn view(&self) -> ServerState {
        ServerState {
            users: self.users@.map_values(|u: User| u@),
            secrets: self.secrets@.map_values(|s: String| s@),
            store: self.sessions@,
        }
    }
}

impl Server {
    pub open spec fn wf(&self) -> bool {
        server_wf(self@)
    }

    /// A service with no users and an empty log.
    pub fn new() -> (r: Server)
        ensures
            r.wf(),
            r@.users.len() == 0,
            r@.store.clock == i64::MIN,
            r@.store.attempts.len() == 0,
            r@.store.sessions.len() == 0,
    {
        let r = Server { users: Vec::new(), secrets: Vec::new(), sessions: SessionManager::new() };
        assert(r@.users.len() == 0);
        r
    }
    /// The user known by `name` as a name or an email, if any.
    fn resolve(&self, name: &str) -> (r: Option<UserId>)
        requires
            self.wf(),
        ensures
            r == resolved_user(self@.users, name@),
    {
        let key = name.to_owned();
        let n = self.users.len();
        let mut i: usize = 0;
        while i < n
            invariant
                self.wf(),
                n == self@.users.len(),
                key@ == name@,
                i <= n,
                forall|j: int| 0 <= j < i ==> !known_as(#[trigger] self@.users[j], name@),
            decreases n - i,
        {
            let u = &self.users[i];
            assert(u@ == self@.users[i as int]);
            if u.name == key || u.email == key {
                proof {
                    let users = self@.users;
                    assert(known_as(users[i as int], name@));
                    assert(users[i as int].id == i + 1);
                    let c = choose|c: int| 0 <= c < users.len() && known_as(#[trigger] users[c], name@);
                    if c != i {
                        assert(!known_as(users[c], users[i as int].name));
                        assert(!known_as(users[c], users[i as int].email));
                    }
                }
                return Some(u.id);
            }
            i += 1;
        }
        None
    }

    /// Whether `secret` is the stored credential of the resolved user.
    fn check_secret(&self, user: Option<UserId>, secret: &str) -> (r: bool)
        requires
            self.wf(),
        ensures
            r == credential_ok(self@, user, secret@),
    {
        match user {
            Some(id) => {
                if id >= 1 && id <= self.users.len() as u64 {
                    let given = secret.to_owned();
                    let stored = &self.secrets[(id - 1) as usize];
                    assert(stored@ == self@.secrets[id - 1]);
                    *stored == given
                } else {
                    false
                }
            },
            None => false,
        }
    }

    /// The one routine behind both ways to log in: checks the credential of
    /// the resolved user, then logs the attempt and, on success, opens a
    /// session, as one unit. Unknown identity and wrong secret come back as
    /// the same error.
    fn authenticate(
        &mut self,
        user: Option<UserId>,
        username_or_email: Option<&str>,
        secret: &str,
        remote_address: Option<&str>,
        now: Timestamp,
    ) -> (r: Result<SessionId, Error>)
        requires
            old(self).wf(),
        ensures
            final(self).wf(),
            login_effect(
                old(self)@,
                final(self)@,
                r,
                user,
                str_of(username_or_email),
                secret@,
                str_of(remote_address),
                now,
            ),
    {
        let ok = self.check_secret(user, secret);
        let outcome = self.sessions.login_transaction(
            user,
            username_or_email,
            remote_address,
            ok,
            now,
        );
        match outcome {
            Ok(Some(session_id)) => Ok(session_id),
            Ok(None) => Err(Error::AuthenticationFailed),
            Err(e) => Err(e),
        }
    }

    /// Logs in the user with identifier `user_id`. The attempt row keeps the
    /// identifier as given; one that is not registered matches no secret.
    pub fn try_login_id(
        &mut self,
        user_id: UserId,
        password: &str,
        remote_address: Option<&str>,
        now: Timestamp,
    ) -> (r: Result<SessionId, Error>)
        requires
            old(self).wf(),
        ensures
            final(self).wf(),
            login_effect(
                old(self)@,
                final(self)@,
                r,
                Some(user_id),
                None,
                password@,
                str_of(remote_address),
                now,
            ),
    {
        self.authenticate(Some(user_id), None, password, remote_address, now)
    }

    /// Logs in the user known by `username_or_email` as a name or an email.
    /// An unknown string is logged as submitted, with no user.
    pub fn try_login(
        &mut self,
        username_or_email: &str,
        password: &str,
        remote_address: Option<&str>,
        now: Timestamp,
    ) -> (r: Result<SessionId, Error>)
        requires
            old(self).wf(),
        ensures
            final(self).wf(),
            login_effect(
                old(self)@,
                final(self)@,
                r,
                resolved_user(old(self)@.users, username_or_email@),
                Some(username_or_email@),
                password@,
                str_of(remote_address),
                now,
            ),
    {
        let user = self.resolve(username_or_email);
        self.authenticate(user, Some(username_or_email), password, remote_address, now)
    }
    /// Logs in the user with identifier `user_id`, at the current instant
    /// of the system clock. A clock that cannot be read fails the call with
    /// `StorageFailure` before anything is written.
    pub fn authenticate_by_id(
        &mut self,
        user_id: UserId,
        secret: &str,
        remote_address: Option<&str>,
    ) -> (r: Result<SessionId, Error>)
        requires
            old(self).wf(),
        ensures
            final(self).wf(),
            r == Err::<SessionId, Error>(Error::StorageFailure) && final(self)@ == old(self)@
                || exists|now: Timestamp|
                login_effect(
                    old(self)@,
                    final(self)@,
                    r,
                    Some(user_id),
                    None,
                    secret@,
                    str_of(remote_address),
                    now,
                ),
    {
        match clock_now() {
            Some(now) => self.try_login_id(user_id, secret, remote_address, now),
            None => Err(Error::StorageFailure),
        }
    }

    /// Logs in the user known by `username_or_email`, at the current instant
    /// of the system clock. A clock that cannot be read fails the call with
    /// `StorageFailure` before anything is written.
    pub fn authenticate_by_identifier(
        &mut self,
        username_or_email: &str,
        secret: &str,
        remote_address: Option<&str>,
    ) -> (r: Result<SessionId, Error>)
        requires
            old(self).wf(),
        ensures
            final(self).wf(),
            r == Err::<SessionId, Error>(Error::StorageFailure) && final(self)@ == old(self)@
                || exists|now: Timestamp|
                login_effect(
                    old(self)@,
                    final(self)@,
                    r,
                    resolved_user(old(self)@.users, username_or_email@),
                    Some(username_or_email@),
                    secret@,
                    str_of(remote_address),
                    now,
                ),
    {
        match clock_now() {
            Some(now) => self.try_login(username_or_email, secret, remote_address, now),
            None => Err(Error::StorageFailure),
        }
    }

    /// The audit log and sessions of the service.
    pub fn session_manager(&self) -> (r: &SessionManager)
        ensures
            r@ == self@.store,
    {
        &self.sessions
    }

    /// Whether some user is known by `s` as a name or an email.
    fn is_taken(&self, s: &String) -> (r: bool)
        requires
            self.wf(),
        ensures
            r == exists|i: int| 0 <= i < self@.users.len() && known_as(#[trigger] self@.users[i], s@),
    {
        let n = self.users.len();
        let mut i: usize = 0;
        while i < n
            invariant
                self.wf(),
                n == self@.users.len(),
                i <= n,
                forall|j: int| 0 <= j < i ==> !known_as(#[trigger] self@.users[j], s@),
            decreases n - i,
        {
            let u = &self.users[i];
            assert(u@ == self@.users[i as int]);
            if u.name == *s || u.email == *s {
                assert(known_as(self@.users[i as int], s@));
                return true;
            }
            i += 1;
        }
        false
    }

    /// Registers a user with the given name, email and secret, and returns
    /// its new identifier. A name or email that already stands for a user,
    /// as either, is refused.
    pub fn create_user(&mut self, name: &str, email: &str, password: &str) -> (r: Result<UserId, Error>)
        requires
            old(self).wf(),
        ensures
            final(self).wf(),
            final(self)@.store == old(self)@.store,
            ({
                let users = old(self)@.users;
                let taken = exists|i: int|
                    0 <= i < users.len() && (known_as(#[trigger] users[i], name@) || known_as(
                        users[i],
                        email@,
                    ));
                if taken {
                    r == Err::<UserId, Error>(Error::UserExists) && final(self)@ == old(self)@
                } else if users.len() >= MAX_ROWS {
                    r == Err::<UserId, Error>(Error::StorageFailure) && final(self)@ == old(self)@
                } else {
                    &&& r == Ok::<UserId, Error>((users.len() + 1) as UserId)
                    &&& final(self)@.users == users.push(
                        UserRecord {
                            id: (users.len() + 1) as UserId,
                            name: name@,
                            email: email@,
                            inactive: false,
                            verified: false,
                        },
                    )
                    &&& final(self)@.secrets == old(self)@.secrets.push(password@)
                }
            }),
    {
        let name = name.to_owned();
        let email = email.to_owned();
        let name_taken = self.is_taken(&name);
        let email_taken = self.is_taken(&email);
        if name_taken || email_taken {
            return Err(Error::UserExists);
        }
        let n = self.users.len();
        if n as u64 >= MAX_ROWS {
            return Err(Error::StorageFailure);
        }
        let id = n as u64 + 1;
        let ghost before = self@;
        self.users.push(User { id, name, email, inactive: false, verified: false });
        self.secrets.push(password.to_owned());
        proof {
            let st = self@;
            let added = UserRecord {
                id: id,
                name: name@,
                email: email@,
                inactive: false,
                verified: false,
            };
            assert(st.users =~= before.users.push(added));
            assert(st.secrets =~= before.secrets.push(password@));
            assert forall|i: int, j: int|
                #![trigger st.users[i], st.users[j]]
                0 <= i < st.users.len() && 0 <= j < st.users.len() && i != j implies !known_as(
                    st.users[j],
                    st.users[i].name,
                ) && !known_as(st.users[j], st.users[i].email) by {
                if i < n && j < n {
                    assert(!known_as(before.users[j], before.users[i].name));
                    assert(!known_as(before.users[j], before.users[i].email));
                } else if i < n {
                    assert(!known_as(before.users[i], name@));
                    assert(!known_as(before.users[i], email@));
                } else {
                    assert(!known_as(before.users[j], name@));
                    assert(!known_as(before.users[j], email@));
                }
            }
        }
        Ok(id)
    }

    /// Whether a user other than the one at position `owner` is known by `s`.
    fn taken_by_other(&self, s: &String, owner: usize) -> (r: bool)
        requires
            self.wf(),
        ensures
            r == exists|j: int|
                0 <= j < self@.users.len() && j != owner && known_as(#[trigger] self@.users[j], s@),
    {
        let n = self.users.len();
        let mut j: usize = 0;
        while j < n
            invariant
                self.wf(),
                n == self@.users.len(),
                j <= n,
                forall|k: int| 0 <= k < j && k != owner ==> !known_as(#[trigger] self@.users[k], s@),
            decreases n - j,
        {
            let u = &self.users[j];
            assert(u@ == self@.users[j as int]);
            if j != owner && (u.name == *s || u.email == *s) {
                assert(known_as(self@.users[j as int], s@));
                return true;
            }
            j += 1;
        }
        false
    }

    /// Applies `changes` to the user `id`. A new name or email that another
    /// user is known by, as either, is refused.
    pub fn edit_user(&mut self, id: UserId, changes: UserMetadata) -> (r: Result<(), Error>)
        requires
            old(self).wf(),
        ensures
            final(self).wf(),
            final(self)@.secrets == old(self)@.secrets,
            final(self)@.store == old(self)@.store,
            ({
                let users = old(self)@.users;
                let current = if registered(old(self)@, id) {
                    users[id - 1]
                } else {
                    UserRecord { id, name: Seq::empty(), email: Seq::empty(), inactive: false, verified: false }
                };
                let name = changed(changes.name, current.name);
                let email = changed(changes.email, current.email);
                if !registered(old(self)@, id) {
                    r == Err::<(), Error>(Error::UserNotFound) && final(self)@ == old(self)@
                } else if exists|j: int|
                    0 <= j < users.len() && j != id - 1 && (known_as(#[trigger] users[j], name)
                        || known_as(users[j], email)) {
                    r == Err::<(), Error>(Error::UserExists) && final(self)@ == old(self)@
                } else {
                    r is Ok && final(self)@.users == users.update(
                        id - 1,
                        UserRecord { name, email, ..current },
                    )
                }
            }),
    {
        if id < 1 || id > self.users.len() as u64 {
            return Err(Error::UserNotFound);
        }
        let i = (id - 1) as usize;
        let mut u = self.users[i].duplicate();
        assert(u@ == self@.users[i as int]);
        assert(self@.users[i as int].id == i + 1);
        match changes.name {
            Some(name) => {
                u.name = name;
            },
            None => {},
        }
        match changes.email {
            Some(email) => {
                u.email = email;
            },
            None => {},
        }
        let name_taken = self.taken_by_other(&u.name, i);
        let email_taken = self.taken_by_other(&u.email, i);
        if name_taken || email_taken {
            return Err(Error::UserExists);
        }
        let ghost before = self@;
        let ghost edited = u@;
        assert(edited.id == i + 1);
        self.users.set(i, u);
        proof {
            let st = self@;
            assert(st.users =~= before.users.update(i as int, edited));
            assert(st.secrets == before.secrets);
            assert(st.store == before.store);
            assert forall|a: int, b: int|
                #![trigger st.users[a], st.users[b]]
                0 <= a < st.users.len() && 0 <= b < st.users.len() && a != b implies !known_as(
                    st.users[b],
                    st.users[a].name,
                ) && !known_as(st.users[b], st.users[a].email) by {
                if a != i && b != i {
                    assert(!known_as(before.users[b], before.users[a].name));
                    assert(!known_as(before.users[b], before.users[a].email));
                } else if a == i {
                    assert(!known_as(before.users[b], edited.name));
                    assert(!known_as(before.users[b], edited.email));
                } else {
                    assert(!known_as(before.users[a], edited.name));
                    assert(!known_as(before.users[a], edited.email));
                }
            }
        }
        Ok(())
    }

    /// The user with identifier `id`.
    pub fn get_user_from_id(&self, id: UserId) -> (r: Result<User, Error>)
        requires
            self.wf(),
        ensures
            registered(self@, id) ==> (r matches Ok(u) && u@ == self@.users[id - 1]),
            !registered(self@, id) ==> r == Err::<User, Error>(Error::UserNotFound),
    {
        if id >= 1 && id <= self.users.len() as u64 {
            Ok(self.users[(id - 1) as usize].duplicate())
        } else {
            Err(Error::UserNotFound)
        }
    }

    /// The users with the given identifiers, in the same order, with `None`
    /// for each identifier that is not registered.
    pub fn get_users_from_ids(&self, ids: &[UserId]) -> (r: Result<Vec<Option<User>>, Error>)
        requires
            self.wf(),
        ensures
            r matches Ok(found) && found@.len() == ids@.len() && forall|k: int|
                0 <= k < ids@.len() ==> if registered(self@, ids@[k]) {
                    #[trigger] found@[k] matches Some(u) && u@ == self@.users[ids@[k] - 1]
                } else {
                    found@[k] is None
                },
    {
        let mut found: Vec<Option<User>> = Vec::new();
        let mut k: usize = 0;
        while k < ids.len()
            invariant
                self.wf(),
                k <= ids@.len(),
                found@.len() == k,
                forall|j: int|
                    0 <= j < k ==> if registered(self@, ids@[j]) {
                        #[trigger] found@[j] matches Some(u) && u@ == self@.users[ids@[j] - 1]
                    } else {
                        found@[j] is None
                    },
            decreases ids@.len() - k,
        {
            let id = ids[k];
            let entry = match self.get_user_from_id(id) {
                Ok(u) => Some(u),
                Err(_) => None,
            };
            found.push(entry);
            k += 1;
        }
        Ok(found)
    }

    /// The user whose name, or whose email, is `key`.
    fn find_user(&self, key: &str, by_email: bool) -> (r: Option<User>)
        requires
            self.wf(),
        ensures
            r matches Some(u) ==> exists|i: int|
                0 <= i < self@.users.len() && #[trigger] self@.users[i] == u@ && (if by_email {
                    u@.email
                } else {
                    u@.name
                }) == key@,
            r is None ==> forall|i: int|
                0 <= i < self@.users.len() ==> (if by_email {
                    (#[trigger] self@.users[i]).email
                } else {
                    self@.users[i].name
                }) != key@,
    {
        let wanted = key.to_owned();
        let n = self.users.len();
        let mut i: usize = 0;
        while i < n
            invariant
                self.wf(),
                n == self@.users.len(),
                wanted@ == key@,
                i <= n,
                forall|j: int|
                    0 <= j < i ==> (if by_email {
                        (#[trigger] self@.users[j]).email
                    } else {
                        self@.users[j].name
                    }) != key@,
            decreases n - i,
        {
            let u = &self.users[i];
            assert(u@ == self@.users[i as int]);
            let hit = if by_email {
                u.email == wanted
            } else {
                u.name == wanted
            };
            if hit {
                let found = u.duplicate();
                assert(self@.users[i as int] == found@);
                assert((if by_email { found@.email } else { found@.name }) == key@);
                return Some(found);
            }
            i += 1;
        }
        None
    }

    /// The user registered under the name `name`, if any.
    pub fn get_user_from_name(&self, name: &str) -> (r: Result<Option<User>, Error>)
        requires
            self.wf(),
        ensures
            r matches Ok(found) && (found matches Some(u) ==> self@.users.contains(u@) && u@.name
                == name@) && (found is None ==> forall|i: int|
                0 <= i < self@.users.len() ==> (#[trigger] self@.users[i]).name != name@),
    {
        Ok(self.find_user(name, false))
    }

    /// The user registered under the email `email`, if any.
    pub fn get_user_from_email(&self, email: &str) -> (r: Result<Option<User>, Error>)
        requires
            self.wf(),
        ensures
            r matches Ok(found) && (found matches Some(u) ==> self@.users.contains(u@) && u@.email
                == email@) && (found is None ==> forall|i: int|
                0 <= i < self@.users.len() ==> (#[trigger] self@.users[i]).email != email@),
    {
        Ok(self.find_user(email, true))
    }

    /// Sets the flags of the user `id`, or reports that there is none.
    fn set_flags(&mut self, id: UserId, inactive: bool, verified: bool) -> (r: Result<(), Error>)
        requires
            old(self).wf(),
        ensures
            final(self).wf(),
            final(self)@.secrets == old(self)@.secrets,
            final(self)@.store == old(self)@.store,
            registered(old(self)@, id) ==> r is Ok && final(self)@.users == old(self)@.users.update(
                id - 1,
                UserRecord { inactive, verified, ..old(self)@.users[id - 1] },
            ),
            !registered(old(self)@, id) ==> r == Err::<(), Error>(Error::UserNotFound) 
                && final(self)@ == old(self)@,
    {
        if id >= 1 && id <= self.users.len() as u64 {
            let i = (id - 1) as usize;
            let ghost before = self@;
            let mut u = self.users[i].duplicate();
            u.inactive = inactive;
            u.verified = verified;
            self.users.set(i, u);
            proof {
                let st = self@;
                assert(st.users =~= before.users.update(
                    i as int,
                    UserRecord { inactive, verified, ..before.users[i as int] },
                ));
                assert forall|a: int, b: int|
                    #![trigger st.users[a], st.users[b]]
                    0 <= a < st.users.len() && 0 <= b < st.users.len() && a != b implies !known_as(
                        st.users[b],
                        st.users[a].name,
                    ) && !known_as(st.users[b], st.users[a].email) by {
                    assert(!known_as(before.users[b], before.users[a].name));
                    assert(!known_as(before.users[b], before.users[a].email));
                }
            }
            Ok(())
        } else {
            Err(Error::UserNotFound)
        }
    }

    /// Marks the user `id` as verified.
    pub fn verify_user(&mut self, id: UserId) -> (r: Result<(), Error>)
        requires
            old(self).wf(),
        ensures
            final(self).wf(),
            final(self)@.secrets == old(self)@.secrets,
            final(self)@.store == old(self)@.store,
            registered(old(self)@, id) ==> r is Ok && final(self)@.users == old(self)@.users.update(
                id - 1,
                UserRecord { verified: true, ..old(self)@.users[id - 1] },
            ),
            !registered(old(self)@, id) ==> r == Err::<(), Error>(Error::UserNotFound) 
                && final(self)@ == old(self)@,
    {
        if id >= 1 && id <= self.users.len() as u64 {
            let inactive = self.users[(id - 1) as usize].inactive;
            self.set_flags(id, inactive, true)
        } else {
            Err(Error::UserNotFound)
        }
    }

    /// Marks the user `id` as inactive, which retires the account; its
    /// identifier is never handed out again.
    pub fn mark_user_inactive(&mut self, id: UserId) -> (r: Result<(), Error>)
        requires
            old(self).wf(),
        ensures
            final(self).wf(),
            final(self)@.secrets == old(self)@.secrets,
            final(self)@.store == old(self)@.store,
            registered(old(self)@, id) ==> r is Ok && final(self)@.users == old(self)@.users.update(
                id - 1,
                UserRecord { inactive: true, ..old(self)@.users[id - 1] },
            ),
            !registered(old(self)@, id) ==> r == Err::<(), Error>(Error::UserNotFound) 
                && final(self)@ == old(self)@,
    {
        if id >= 1 && id <= self.users.len() as u64 {
            let verified = self.users[(id - 1) as usize].verified;
            self.set_flags(id, true, verified)
        } else {
            Err(Error::UserNotFound)
        }
    }

    /// Marks the user `id` as active again.
    pub fn mark_user_active(&mut self, id: UserId) -> (r: Result<(), Error>)
        requires
            old(self).wf(),
        ensures
            final(self).wf(),
            final(self)@.secrets == old(self)@.secrets,
            final(self)@.store == old(self)@.store,
            registered(old(self)@, id) ==> r is Ok && final(self)@.users == old(self)@.users.update(
                id - 1,
                UserRecord { inactive: false, ..old(self)@.users[id - 1] },
            ),
            !registered(old(self)@, id) ==> r == Err::<(), Error>(Error::UserNotFound) 
                && final(self)@ == old(self)@,
    {
        if id >= 1 && id <= self.users.len() as u64 {
            let verified = self.users[(id - 1) as usize].verified;
            self.set_flags(id, false, verified)
        } else {
            Err(Error::UserNotFound)
        }
    }

    /// Marks a logged attempt as successful; see
    /// [`SessionManager::set_login_success`].
    pub fn mark_login_successful(&mut self, attempt_id: LoginAttemptId) -> (r: Result<(), Error>)
        requires
            old(self).wf(),
        ensures
            final(self).wf(),
            r is Ok,
            final(self)@.users == old(self)@.users,
            final(self)@.secrets == old(self)@.secrets,
            final(self)@.store == with_success(old(self)@.store, attempt_id),
    {
        self.sessions.set_login_success(attempt_id)
    }

    /// The login attempts of one user stamped after `since`, latest first,
    /// one page at most.
    pub fn get_login_attempts(&self, user_id: UserId, since: Timestamp) -> (r: Result<Vec<LoginAttempt>, Error>)
        requires
            self.wf(),
        ensures
            r matches Ok(page) && is_query_page(records(page@), self@.store.attempts, Some(user_id), since),
    {
        self.sessions.get_login_attempts(user_id, since)
    }

    /// The login attempts of all users stamped after `since`, latest first,
    /// one page at most.
    pub fn get_all_login_attempts(&self, since: Timestamp) -> (r: Result<Vec<LoginAttempt>, Error>)
        requires
            self.wf(),
        ensures
            r matches Ok(page) && is_query_page(records(page@), self@.store.attempts, None, since),
    {
        self.sessions.get_all_login_attempts(since)
    }
}

} // verus!
