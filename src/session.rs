use crate::error::Error;
use vstd::prelude::*;

verus! {

/// Stable identifier of a registered user.
pub type UserId = u64;

/// Identifier of a row of the login audit log, assigned on insert.
pub type LoginAttemptId = u64;

/// Identifier of an issued session, assigned on insert.
pub type SessionId = u64;

/// An instant, in microseconds since the Unix epoch.
pub type Timestamp = i64;

/// The most rows that one audit-log query returns.
pub const PAGE_SIZE: usize = 100;

/// The largest identifier the store hands out (that of a `bigserial` column).
pub const MAX_ROWS: u64 = 9223372036854775807;

/// What a login attempt row holds.
pub struct AttemptRecord {
    pub id: LoginAttemptId,
    pub user_id: Option<UserId>,
    pub username_or_email: Option<Seq<char>>,
    pub remote_address: Option<Seq<char>>,
    pub success: bool,
    pub attempted_at: Timestamp,
}

/// What a session row holds.
pub struct SessionRecord {
    pub id: SessionId,
    pub user_id: UserId,
    pub login_attempt_id: LoginAttemptId,
}

/// The contents of the store: both tables, in insertion order, and the latest
/// time stamped on an attempt.
pub struct SessionState {
    pub attempts: Seq<AttemptRecord>,
    pub sessions: Seq<SessionRecord>,
    pub clock: Timestamp,
}

pub open spec fn text_of(o: Option<String>) -> Option<Seq<char>> {
    match o {
        Some(s) => Some(s@),
        None => None,
    }
}

pub open spec fn str_of(o: Option<&str>) -> Option<Seq<char>> {
    match o {
        Some(s) => Some(s@),
        None => None,
    }
}

/// One audit-log row.
#[derive(Debug)]
pub struct LoginAttempt {
    id: LoginAttemptId,
    user_id: Option<UserId>,
    username_or_email: Option<String>,
    remote_address: Option<String>,
    success: bool,
    attempted_at: Timestamp,
}

impl View for LoginAttempt {
    type V = AttemptRecord;

    closed spec fn view(&self) -> AttemptRecord {
        AttemptRecord {
            id: self.id,
            user_id: self.user_id,
            username_or_email: text_of(self.username_or_email),
            remote_address: text_of(self.remote_address),
            success: self.success,
            attempted_at: self.attempted_at,
        }
    }
}

fn copy_text(o: &Option<String>) -> (r: Option<String>)
    ensures
        text_of(r) == text_of(*o),
{
    match o {
        Some(s) => Some(s.clone()),
        None => None,
    }
}

fn borrow_text(o: &Option<String>) -> (r: Option<&str>)
    ensures
        str_of(r) == text_of(*o),
{
    match o {
        Some(s) => Some(s.as_str()),
        None => None,
    }
}

fn own_text(o: Option<&str>) -> (r: Option<String>)
    ensures
        text_of(r) == str_of(o),
{
    match o {
        Some(s) => Some(s.to_owned()),
        None => None,
    }
}

impl LoginAttempt {
    pub fn login_attempt_id(&self) -> (r: LoginAttemptId)
        ensures
            r == self@.id,
    {
        self.id
    }

    pub fn user_id(&self) -> (r: Option<UserId>)
        ensures
            r == self@.user_id,
    {
        self.user_id
    }

    pub fn username_or_email(&self) -> (r: Option<&str>)
        ensures
            str_of(r) == self@.username_or_email,
    {
        borrow_text(&self.username_or_email)
    }

    pub fn remote_address(&self) -> (r: Option<&str>)
        ensures
            str_of(r) == self@.remote_address,
    {
        borrow_text(&self.remote_address)
    }

    pub fn success(&self) -> (r: bool)
        ensures
            r == self@.success,
    {
        self.success
    }

    pub fn attempted_at(&self) -> (r: Timestamp)
        ensures
            r == self@.attempted_at,
    {
        self.attempted_at
    }

    fn duplicate(&self) -> (r: LoginAttempt)
        ensures
            r@ == self@,
    {
        LoginAttempt {
            id: self.id,
            user_id: self.user_id,
            username_or_email: copy_text(&self.username_or_email),
            remote_address: copy_text(&self.remote_address),
            success: self.success,
            attempted_at: self.attempted_at,
        }
    }
}

/// One session row.
#[derive(Debug, Clone, Copy)]
pub struct Session {
    id: SessionId,
    user_id: UserId,
    login_attempt_id: LoginAttemptId,
}

impl View for Session {
    type V = SessionRecord;

    closed spec fn view(&self) -> SessionRecord {
        SessionRecord { id: self.id, user_id: self.user_id, login_attempt_id: self.login_attempt_id }
    }
}

impl Session {
    pub fn session_id(&self) -> (r: SessionId)
        ensures
            r == self@.id,
    {
        self.id
    }

    pub fn user_id(&self) -> (r: UserId)
        ensures
            r == self@.user_id,
    {
        self.user_id
    }

    pub fn login_attempt_id(&self) -> (r: LoginAttemptId)
        ensures
            r == self@.login_attempt_id,
    {
        self.login_attempt_id
    }
}

pub open spec fn records(v: Seq<LoginAttempt>) -> Seq<AttemptRecord> {
    v.map_values(|a: LoginAttempt| a@)
}

/// The invariant of the store: identifiers are positions counted from one,
/// times never go down along the log, and every session rests on a
/// successful attempt by its own user.
pub open spec fn state_wf(s: SessionState) -> bool {
    &&& s.attempts.len() <= MAX_ROWS
    &&& s.sessions.len() <= MAX_ROWS
    &&& forall|i: int| 0 <= i < s.attempts.len() ==> #[trigger] s.attempts[i].id == i + 1
    &&& forall|i: int, j: int|
        #![trigger s.attempts[i], s.attempts[j]]
        0 <= i < j < s.attempts.len() ==> s.attempts[i].attempted_at
            <= s.attempts[j].attempted_at
    &&& forall|i: int|
        0 <= i < s.attempts.len() ==> #[trigger] s.attempts[i].attempted_at <= s.clock
    &&& forall|j: int| 0 <= j < s.sessions.len() ==> #[trigger] s.sessions[j].id == j + 1
    &&& forall|j: int| 0 <= j < s.sessions.len() ==> session_backed(s, #[trigger] s.sessions[j])
}

/// The session's attempt is in the log, succeeded, and was made by the
/// session's user.
pub open spec fn session_backed(s: SessionState, t: SessionRecord) -> bool {
    &&& 1 <= t.login_attempt_id <= s.attempts.len()
    &&& s.attempts[t.login_attempt_id - 1].success
    &&& s.attempts[t.login_attempt_id - 1].user_id == Some(t.user_id)
}

pub open spec fn later_of(now: Timestamp, clock: Timestamp) -> Timestamp {
    if now > clock {
        now
    } else {
        clock
    }
}

/// The row that the next insert writes.
pub open spec fn next_attempt(
    s: SessionState,
    user_id: Option<UserId>,
    username_or_email: Option<Seq<char>>,
    remote_address: Option<Seq<char>>,
    success: bool,
    now: Timestamp,
) -> AttemptRecord {
    AttemptRecord {
        id: (s.attempts.len() + 1) as LoginAttemptId,
        user_id,
        username_or_email,
        remote_address,
        success,
        attempted_at: later_of(now, s.clock),
    }
}

/// The store after one more attempt is logged.
pub open spec fn with_attempt(
    s: SessionState,
    user_id: Option<UserId>,
    username_or_email: Option<Seq<char>>,
    remote_address: Option<Seq<char>>,
    success: bool,
    now: Timestamp,
) -> SessionState {
    SessionState {
        attempts: s.attempts.push(
            next_attempt(s, user_id, username_or_email, remote_address, success, now),
        ),
        sessions: s.sessions,
        clock: later_of(now, s.clock),
    }
}

/// The store after one atomic login: the attempt is logged, and when it
/// succeeded a session that points at it is opened for the user.
pub open spec fn with_login(
    s: SessionState,
    user_id: Option<UserId>,
    username_or_email: Option<Seq<char>>,
    remote_address: Option<Seq<char>>,
    success: bool,
    now: Timestamp,
) -> SessionState {
    let t = with_attempt(s, user_id, username_or_email, remote_address, success, now);
    if success {
        SessionState {
            sessions: t.sessions.push(
                SessionRecord {
                    id: (s.sessions.len() + 1) as SessionId,
                    user_id: user_id->0,
                    login_attempt_id: (s.attempts.len() + 1) as LoginAttemptId,
                },
            ),
            ..t
        }
    } else {
        t
    }
}

/// Whether a login transaction fits in the identifier space of both tables.
pub open spec fn login_fits(s: SessionState, success: bool) -> bool {
    s.attempts.len() < MAX_ROWS && (success ==> s.sessions.len() < MAX_ROWS)
}

/// The store after the attempt with identifier `id` is marked successful;
/// an unknown identifier changes nothing.
pub open spec fn with_success(s: SessionState, id: LoginAttemptId) -> SessionState {
    SessionState {
        attempts: s.attempts.map_values(
            |a: AttemptRecord|
                if a.id == id {
                    AttemptRecord { success: true, ..a }
                } else {
                    a
                },
        ),
        ..s
    }
}

/// Whether a row answers a query: stamped after `since`, and made by `user`
/// when a user is given.
pub open spec fn in_query(a: AttemptRecord, user: Option<UserId>, since: Timestamp) -> bool {
    a.attempted_at > since && (user matches Some(u) ==> a.user_id == Some(u))
}

/// The order of a query's answer: later rows first, and among rows stamped
/// with the same instant, the one inserted first.
pub open spec fn listed_before(a: AttemptRecord, b: AttemptRecord) -> bool {
    a.attempted_at > b.attempted_at || (a.attempted_at == b.attempted_at && a.id < b.id)
}

/// `page` answers the query over `log`: it holds matching rows of the log in
/// answer order, at most a page of them, and leaves a matching row out only
/// when the page is full and the row comes after every row on it.
pub open spec fn is_query_page(
    page: Seq<AttemptRecord>,
    log: Seq<AttemptRecord>,
    user: Option<UserId>,
    since: Timestamp,
) -> bool {
    &&& page.len() <= PAGE_SIZE
    &&& forall|k: int|
        0 <= k < page.len() ==> log.contains(#[trigger] page[k]) && in_query(page[k], user, since)
    &&& forall|k: int, l: int|
        #![trigger page[k], page[l]]
        0 <= k < l < page.len() ==> listed_before(page[k], page[l])
    &&& forall|a: AttemptRecord|
        #[trigger] log.contains(a) && in_query(a, user, since) && !page.contains(a) ==> page.len()
            == PAGE_SIZE && forall|k: int| 0 <= k < page.len() ==> listed_before(#[trigger] page[k], a)
}

/// Whether `a` may come next on a page that so far holds `page`.
pub open spec fn may_follow(page: Seq<AttemptRecord>, a: AttemptRecord, user: Option<UserId>, since: Timestamp) -> bool {
    in_query(a, user, since) && (page.len() > 0 ==> listed_before(page.last(), a))
}

fn answers(a: &LoginAttempt, user: Option<UserId>, since: Timestamp) -> (r: bool)
    ensures
        r == in_query(a@, user, since),
{
    if a.attempted_at <= since {
        return false;
    }
    match user {
        Some(u) => match a.user_id {
            Some(v) => u == v,
            None => false,
        },
        None => true,
    }
}

fn precedes(a: &LoginAttempt, b: &LoginAttempt) -> (r: bool)
    ensures
        r == listed_before(a@, b@),
{
    a.attempted_at > b.attempted_at || (a.attempted_at == b.attempted_at && a.id < b.id)
}

/// The audit log and the session table, kept together so that an attempt
/// and the session it authorizes are written as one unit.
pub struct SessionManager {
    attempts: Vec<LoginAttempt>,
    sessions: Vec<Session>,
    clock: Timestamp,
}

impl View for SessionManager {
    type V = SessionState;

    closed spec fn view(&self) -> SessionState {
        SessionState {
            attempts: records(self.attempts@),
            sessions: self.sessions@.map_values(|t: Session| t@),
            clock: self.clock,
        }
    }
}

impl SessionManager {
    pub open spec fn wf(&self) -> bool {
        state_wf(self@)
    }

    /// An empty store.
    pub fn new() -> (r: SessionManager)
        ensures
            r.wf(),
            r@.clock == i64::MIN,
            r@.attempts.len() == 0,
            r@.sessions.len() == 0,
    {
        let r = SessionManager { attempts: Vec::new(), sessions: Vec::new(), clock: i64::MIN };
        assert(r@.attempts.len() == 0);
        r
    }

    /// Appends one row to the audit log, stamped with `now` or, if the log
    /// already holds a later time, with that time.
    fn append_attempt(
        &mut self,
        user_id: Option<UserId>,
        username_or_email: Option<&str>,
        remote_address: Option<&str>,
        success: bool,
        now: Timestamp,
    ) -> (r: Result<LoginAttemptId, Error>)
        requires
            old(self).wf(),
        ensures
            final(self).wf(),
            r is Ok <==> old(self)@.attempts.len() < MAX_ROWS,
            r matches Ok(id) ==> id == old(self)@.attempts.len() + 1 && final(self)@ == with_attempt(
                old(self)@,
                user_id,
                str_of(username_or_email),
                str_of(remote_address),
                success,
                now,
            ),
            r is Err ==> r == Err::<LoginAttemptId, Error>(Error::StorageFailure) && final(self)@
                == old(self)@,
    {
        let n = self.attempts.len();
        if n as u64 >= MAX_ROWS {
            return Err(Error::StorageFailure);
        }
        let id = n as u64 + 1;
        let stamp = if now > self.clock {
            now
        } else {
            self.clock
        };
        let row = LoginAttempt {
            id,
            user_id,
            username_or_email: own_text(username_or_email),
            remote_address: own_text(remote_address),
            success,
            attempted_at: stamp,
        };
        self.attempts.push(row);
        self.clock = stamp;
        proof {
            let s = old(self)@;
            let t = self@;
            assert(t.attempts =~= s.attempts.push(
                next_attempt(s, user_id, str_of(username_or_email), str_of(remote_address), success, now),
            ));
            assert(t.sessions =~= s.sessions);
        }
        Ok(id)
    }
    /// Appends one row to the audit log, stamped with `now` or, if the log
    /// already holds a later time, with that time. A row names the user, the
    /// string the user was submitted as, or both.
    pub fn add_login_attempt(
        &mut self,
        user_id: Option<UserId>,
        username_or_email: Option<&str>,
        remote_address: Option<&str>,
        success: bool,
        now: Timestamp,
    ) -> (r: Result<LoginAttemptId, Error>)
        requires
            old(self).wf(),
            user_id is Some || username_or_email is Some,
        ensures
            final(self).wf(),
            r is Ok <==> old(self)@.attempts.len() < MAX_ROWS,
            r matches Ok(id) ==> id == old(self)@.attempts.len() + 1 && final(self)@ == with_attempt(
                old(self)@,
                user_id,
                str_of(username_or_email),
                str_of(remote_address),
                success,
                now,
            ),
            r is Err ==> r == Err::<LoginAttemptId, Error>(Error::StorageFailure) && final(self)@
                == old(self)@,
    {
        self.append_attempt(user_id, username_or_email, remote_address, success, now)
    }

    /// Logs an attempt and, when it succeeded, opens a session for the user
    /// that points at it, as one unit: if either row cannot be written,
    /// neither is.
    pub fn login_transaction(
        &mut self,
        user_id: Option<UserId>,
        username_or_email: Option<&str>,
        remote_address: Option<&str>,
        success: bool,
        now: Timestamp,
    ) -> (r: Result<Option<SessionId>, Error>)
        requires
            old(self).wf(),
            success ==> user_id is Some,
        ensures
            final(self).wf(),
            r is Ok <==> login_fits(old(self)@, success),
            r is Ok ==> final(self)@ == with_login(
                old(self)@,
                user_id,
                str_of(username_or_email),
                str_of(remote_address),
                success,
                now,
            ),
            r matches Ok(opened) ==> (success ==> opened == Some(
                (old(self)@.sessions.len() + 1) as SessionId,
            )) && (!success ==> opened is None),
            r is Err ==> r == Err::<Option<SessionId>, Error>(Error::StorageFailure) 
                && final(self)@ == old(self)@,
    {
        let n_sessions = self.sessions.len();
        if success && n_sessions as u64 >= MAX_ROWS {
            return Err(Error::StorageFailure);
        }
        let attempt_id = match self.append_attempt(
            user_id,
            username_or_email,
            remote_address,
            success,
            now,
        ) {
            Ok(id) => id,
            Err(e) => return Err(e),
        };
        if !success {
            return Ok(None);
        }
        let owner = match user_id {
            Some(u) => u,
            None => return Ok(None),
        };
        let session_id = n_sessions as u64 + 1;
        let ghost before = self@;
        self.sessions.push(Session { id: session_id, user_id: owner, login_attempt_id: attempt_id });
        proof {
            let t = self@;
            assert(t.attempts =~= before.attempts);
            assert(t.sessions =~= before.sessions.push(
                SessionRecord { id: session_id, user_id: owner, login_attempt_id: attempt_id },
            ));
            assert forall|j: int| 0 <= j < t.sessions.len() implies session_backed(
                t,
                #[trigger] t.sessions[j],
            ) by {
                if j < before.sessions.len() {
                    assert(session_backed(before, before.sessions[j]));
                }
            }
        }
        Ok(Some(session_id))
    }

    /// Marks the attempt with identifier `id` as successful. Rows are never
    /// marked unsuccessful, and marking one twice is the same as marking it
    /// once; an unknown identifier changes nothing.
    pub fn set_login_success(&mut self, id: LoginAttemptId) -> (r: Result<(), Error>)
        requires
            old(self).wf(),
        ensures
            final(self).wf(),
            r is Ok,
            final(self)@ == with_success(old(self)@, id),
    {
        let ghost before = self@;
        let n = self.attempts.len();
        if id >= 1 && id <= n as u64 {
            let i = (id - 1) as usize;
            let mut row = self.attempts[i].duplicate();
            row.success = true;
            self.attempts.set(i, row);
        }
        proof {
            let t = self@;
            assert(t.attempts =~= with_success(before, id).attempts);
            assert(t.sessions =~= before.sessions);
            assert forall|j: int| 0 <= j < t.sessions.len() implies session_backed(
                t,
                #[trigger] t.sessions[j],
            ) by {
                assert(session_backed(before, before.sessions[j]));
            }
        }
        Ok(())
    }
    /// The rows that answer a query, in answer order, one page at most.
    fn query(&self, user: Option<UserId>, since: Timestamp) -> (page: Vec<LoginAttempt>)
        requires
            self.wf(),
        ensures
            is_query_page(records(page@), self@.attempts, user, since),
    {
        let ghost log = self@.attempts;
        let n = self.attempts.len();
        let mut page: Vec<LoginAttempt> = Vec::new();
        let mut last: usize = 0;
        let mut done = false;
        while !done && page.len() < PAGE_SIZE
            invariant
                self.wf(),
                log == self@.attempts,
                n == log.len(),
                page.len() <= PAGE_SIZE,
                page.len() > 0 ==> last < n && records(page@).last() == log[last as int],
                forall|k: int|
                    0 <= k < page.len() ==> log.contains(#[trigger] records(page@)[k]) && in_query(
                        records(page@)[k],
                        user,
                        since,
                    ),
                forall|k: int, l: int|
                    #![trigger records(page@)[k], records(page@)[l]]
                    0 <= k < l < page.len() ==> listed_before(records(page@)[k], records(page@)[l]),
                forall|j: int|
                    0 <= j < n && in_query(#[trigger] log[j], user, since) && !records(
                        page@,
                    ).contains(log[j]) ==> forall|k: int|
                        0 <= k < page.len() ==> listed_before(#[trigger] records(page@)[k], log[j]),
                done ==> forall|j: int|
                    0 <= j < n ==> !may_follow(records(page@), #[trigger] log[j], user, since),
            decreases PAGE_SIZE - page.len(), if done { 0int } else { 1int },
        {
            let ghost shown = records(page@);
            let mut best: usize = n;
            let mut i: usize = 0;
            while i < n
                invariant
                    self.wf(),
                    log == self@.attempts,
                    n == log.len(),
                    shown == records(page@),
                    page.len() > 0 ==> last < n && shown.last() == log[last as int],
                    i <= n,
                    best == n || best < i,
                    best < n ==> may_follow(shown, log[best as int], user, since),
                    best < n ==> forall|j: int|
                        0 <= j < i && may_follow(shown, #[trigger] log[j], user, since) ==> j
                            == best || listed_before(log[best as int], log[j]),
                    best == n ==> forall|j: int|
                        0 <= j < i ==> !may_follow(shown, #[trigger] log[j], user, since),
                decreases n - i,
            {
                let a = &self.attempts[i];
                assert(a@ == log[i as int]);
                if answers(a, user, since) && (page.len() == 0 || precedes(&self.attempts[last], a))
                    && (best == n || precedes(a, &self.attempts[best])) {
                    best = i;
                }
                i += 1;
            }
            if best == n {
                done = true;
            } else {
                page.push(self.attempts[best].duplicate());
                last = best;
                proof {
                    let b = best as int;
                    let now_shown = records(page@);
                    assert(now_shown =~= shown.push(log[b]));
                    assert(log.contains(log[b]));
                    assert forall|k: int, l: int|
                        #![trigger now_shown[k], now_shown[l]]
                        0 <= k < l < now_shown.len() implies listed_before(now_shown[k], now_shown[l]) by {
                        if l == shown.len() && k < shown.len() - 1 {
                            assert(listed_before(shown[k], shown[shown.len() - 1]));
                        }
                    }
                    assert forall|j: int|
                        0 <= j < n && in_query(#[trigger] log[j], user, since) && !now_shown.contains(
                            log[j],
                        ) implies forall|k: int|
                        0 <= k < now_shown.len() ==> listed_before(#[trigger] now_shown[k], log[j]) by {
                        if shown.contains(log[j]) {
                            let k0 = choose|k0: int| 0 <= k0 < shown.len() && shown[k0] == log[j];
                            assert(now_shown[k0] == log[j]);
                        }
                        if shown.len() > 0 {
                            assert(listed_before(shown[shown.len() - 1], log[j]));
                        }
                        assert(may_follow(shown, log[j], user, since));
                        assert(now_shown[shown.len() as int] == log[b]);
                        assert(j != b);
                    }
                }
            }
        }
        proof {
            let shown = records(page@);
            assert forall|a: AttemptRecord|
                #[trigger] log.contains(a) && in_query(a, user, since) && !shown.contains(
                    a,
                ) implies shown.len() == PAGE_SIZE && forall|k: int|
                0 <= k < shown.len() ==> listed_before(#[trigger] shown[k], a) by {
                let j = choose|j: int| 0 <= j < log.len() && log[j] == a;
                if shown.len() > 0 {
                    assert(listed_before(shown[shown.len() - 1], log[j]));
                }
                assert(may_follow(shown, log[j], user, since));
            }
        }
        page
    }

    /// The login attempts of one user stamped after `since`, latest first,
    /// one page at most.
    pub fn get_login_attempts(&self, user_id: UserId, since: Timestamp) -> (r: Result<Vec<LoginAttempt>, Error>)
        requires
            self.wf(),
        ensures
            r matches Ok(page) && is_query_page(records(page@), self@.attempts, Some(user_id), since),
    {
        Ok(self.query(Some(user_id), since))
    }

    /// The login attempts of all users stamped after `since`, latest first,
    /// one page at most.
    pub fn get_all_login_attempts(&self, since: Timestamp) -> (r: Result<Vec<LoginAttempt>, Error>)
        requires
            self.wf(),
        ensures
            r matches Ok(page) && is_query_page(records(page@), self@.attempts, None, since),
    {
        Ok(self.query(None, since))
    }
    /// How many rows the audit log holds.
    pub fn attempt_count(&self) -> (r: usize)
        ensures
            r == self@.attempts.len(),
    {
        self.attempts.len()
    }

    /// How many sessions have been opened.
    pub fn session_count(&self) -> (r: usize)
        ensures
            r == self@.sessions.len(),
    {
        self.sessions.len()
    }

    /// The session with identifier `id`, if there is one.
    pub fn get_session(&self, id: SessionId) -> (r: Option<Session>)
        requires
            self.wf(),
        ensures
            1 <= id <= self@.sessions.len() ==> (r matches Some(t) && t@ == self@.sessions[id - 1]),
            !(1 <= id <= self@.sessions.len()) ==> r is None,
    {
        if id >= 1 && id <= self.sessions.len() as u64 {
            Some(self.sessions[(id - 1) as usize])
        } else {
            None
        }
    }
}

} // verus!
