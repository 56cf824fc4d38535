use crate::error::Error;
use crate::server::{login_effect, resolved_user, ServerState};
use crate::session::{
    in_query, is_query_page, listed_before, login_fits, next_attempt, with_login, with_success,
    AttemptRecord, LoginAttemptId, SessionId, SessionState, Timestamp, UserId, MAX_ROWS, PAGE_SIZE,
};
use vstd::prelude::*;

verus! {

/// Every login transaction appends exactly one row to the audit log, the
/// one that records the call, whatever its outcome, and keeps the rows that
/// were there.
pub proof fn lemma_one_row_per_login(
    s: SessionState,
    user: Option<UserId>,
    username_or_email: Option<Seq<char>>,
    remote_address: Option<Seq<char>>,
    success: bool,
    now: Timestamp,
)
    ensures
        ({
            let t = with_login(s, user, username_or_email, remote_address, success, now);
            &&& t.attempts.len() == s.attempts.len() + 1
            &&& t.attempts.subrange(0, s.attempts.len() as int) == s.attempts
            &&& t.attempts.last() == next_attempt(
                s,
                user,
                username_or_email,
                remote_address,
                success,
                now,
            )
        }),
{
    let t = with_login(s, user, username_or_email, remote_address, success, now);
    assert(t.attempts.subrange(0, s.attempts.len() as int) =~= s.attempts);
}

/// A login transaction opens a session exactly when the attempt it logs is
/// successful, and that session points at the attempt.
pub proof fn lemma_session_iff_success(
    s: SessionState,
    user: Option<UserId>,
    username_or_email: Option<Seq<char>>,
    remote_address: Option<Seq<char>>,
    success: bool,
    now: Timestamp,
)
    requires
        success ==> user is Some,
    ensures
        ({
            let t = with_login(s, user, username_or_email, remote_address, success, now);
            &&& t.sessions.len() > s.sessions.len() <==> t.attempts.last().success
            &&& t.sessions.len() <= s.sessions.len() + 1
            &&& t.sessions.subrange(0, s.sessions.len() as int) == s.sessions
            &&& t.attempts.last().success ==> t.sessions.last().login_attempt_id
                == t.attempts.last().id && user == Some(t.sessions.last().user_id)
        }),
{
    let t = with_login(s, user, username_or_email, remote_address, success, now);
    assert(t.sessions.subrange(0, s.sessions.len() as int) =~= s.sessions);
}

/// An identifier that resolves to nobody and a known user's identifier with
/// the wrong secret get the same answer; once the attempt is written, that
/// answer is `AuthenticationFailed`.
pub proof fn lemma_uniform_failure(
    st: ServerState,
    unknown: Seq<char>,
    any_secret: Seq<char>,
    known: Seq<char>,
    wrong_secret: Seq<char>,
    remote1: Option<Seq<char>>,
    remote2: Option<Seq<char>>,
    now1: Timestamp,
    now2: Timestamp,
    after1: ServerState,
    r1: Result<SessionId, Error>,
    after2: ServerState,
    r2: Result<SessionId, Error>,
)
    requires
        resolved_user(st.users, unknown) is None,
        resolved_user(st.users, known) matches Some(id) && st.secrets[id - 1] != wrong_secret,
        login_effect(st, after1, r1, resolved_user(st.users, unknown), Some(unknown), any_secret, remote1, now1),
        login_effect(st, after2, r2, resolved_user(st.users, known), Some(known), wrong_secret, remote2, now2),
    ensures
        r1 == r2,
        login_fits(st.store, false) ==> r1 == Err::<SessionId, Error>(Error::AuthenticationFailed),
{
}

/// A page of one user's attempts holds only that user's rows stamped after
/// `since`, at most a page of them, latest first; where no two rows of the
/// log share a time stamp, the times strictly decrease along the page.
pub proof fn lemma_user_page(
    page: Seq<AttemptRecord>,
    log: Seq<AttemptRecord>,
    user: UserId,
    since: Timestamp,
)
    requires
        is_query_page(page, log, Some(user), since),
        forall|i: int, j: int|
            #![trigger log[i], log[j]]
            0 <= i < j < log.len() ==> log[i].attempted_at != log[j].attempted_at,
    ensures
        page.len() <= PAGE_SIZE,
        forall|k: int|
            0 <= k < page.len() ==> #[trigger] page[k].user_id == Some(user)
                && page[k].attempted_at > since,
        forall|k: int, l: int|
            #![trigger page[k], page[l]]
            0 <= k < l < page.len() ==> page[k].attempted_at > page[l].attempted_at,
{
    assert forall|k: int| 0 <= k < page.len() implies #[trigger] page[k].user_id == Some(user)
        && page[k].attempted_at > since by {
        assert(in_query(page[k], Some(user), since));
    }
    assert forall|k: int, l: int|
        #![trigger page[k], page[l]]
        0 <= k < l < page.len() implies page[k].attempted_at > page[l].attempted_at by {
        assert(listed_before(page[k], page[l]));
        assert(log.contains(page[k]));
        assert(log.contains(page[l]));
        let i = choose|i: int| 0 <= i < log.len() && log[i] == page[k];
        let j = choose|j: int| 0 <= j < log.len() && log[j] == page[l];
        if i < j {
            assert(log[i].attempted_at != log[j].attempted_at);
        } else if j < i {
            assert(log[j].attempted_at != log[i].attempted_at);
        }
    }
}

/// Marking an attempt successful twice is the same as marking it once,
/// marking one that already succeeded changes nothing, and neither opens a
/// session.
pub proof fn lemma_mark_success_idempotent(s: SessionState, id: LoginAttemptId)
    ensures
        with_success(with_success(s, id), id) == with_success(s, id),
        with_success(s, id).sessions == s.sessions,
        (forall|i: int| 0 <= i < s.attempts.len() && #[trigger] s.attempts[i].id == id ==> s.attempts[i].success)
            ==> with_success(s, id) == s,
{
    assert(with_success(with_success(s, id), id).attempts =~= with_success(s, id).attempts);
    if forall|i: int| 0 <= i < s.attempts.len() && #[trigger] s.attempts[i].id == id ==> s.attempts[i].success {
        assert(with_success(s, id).attempts =~= s.attempts);
    }
}

/// The store after a run of failed logins, one for each instant of `nows`.
pub open spec fn after_failed_logins(
    s: SessionState,
    user: Option<UserId>,
    username_or_email: Option<Seq<char>>,
    remote_address: Option<Seq<char>>,
    nows: Seq<Timestamp>,
) -> SessionState
    decreases nows.len(),
{
    if nows.len() == 0 {
        s
    } else {
        with_login(
            after_failed_logins(s, user, username_or_email, remote_address, nows.drop_last()),
            user,
            username_or_email,
            remote_address,
            false,
            nows.last(),
        )
    }
}

/// N failed logins for one user leave exactly N more rows, each unsuccessful
/// and naming that user, each with its own identifier, keep every earlier
/// row, and open no session.
pub proof fn lemma_failed_logins(
    s: SessionState,
    user: Option<UserId>,
    username_or_email: Option<Seq<char>>,
    remote_address: Option<Seq<char>>,
    nows: Seq<Timestamp>,
)
    requires
        s.attempts.len() + nows.len() <= MAX_ROWS,
    ensures
        ({
            let t = after_failed_logins(s, user, username_or_email, remote_address, nows);
            &&& t.attempts.len() == s.attempts.len() + nows.len()
            &&& t.attempts.subrange(0, s.attempts.len() as int) == s.attempts
            &&& forall|i: int|
                s.attempts.len() <= i < t.attempts.len() ==> !(#[trigger] t.attempts[i]).success
                    && t.attempts[i].user_id == user && t.attempts[i].id == i + 1
            &&& t.sessions == s.sessions
        }),
    decreases nows.len(),
{
    if nows.len() > 0 {
        let prev = nows.drop_last();
        lemma_failed_logins(s, user, username_or_email, remote_address, prev);
        let p = after_failed_logins(s, user, username_or_email, remote_address, prev);
        let t = after_failed_logins(s, user, username_or_email, remote_address, nows);
        assert(t.attempts =~= p.attempts.push(
            next_attempt(p, user, username_or_email, remote_address, false, nows.last()),
        ));
        assert(t.attempts.subrange(0, s.attempts.len() as int) =~= p.attempts.subrange(
            0,
            s.attempts.len() as int,
        ));
    } else {
        assert(s.attempts.subrange(0, s.attempts.len() as int) =~= s.attempts);
    }
}

/// One login as the store sees it: the resolved user, the string submitted,
/// the remote address, whether the secret matched, and the instant.
pub struct LoginCall {
    pub user: Option<UserId>,
    pub username_or_email: Option<Seq<char>>,
    pub remote_address: Option<Seq<char>>,
    pub success: bool,
    pub now: Timestamp,
}

/// The store after a run of logins, in order.
pub open spec fn after_logins(s: SessionState, calls: Seq<LoginCall>) -> SessionState
    decreases calls.len(),
{
    if calls.len() == 0 {
        s
    } else {
        let c = calls.last();
        with_login(
            after_logins(s, calls.drop_last()),
            c.user,
            c.username_or_email,
            c.remote_address,
            c.success,
            c.now,
        )
    }
}

/// How many logins of a run succeed.
pub open spec fn successes(calls: Seq<LoginCall>) -> nat
    decreases calls.len(),
{
    if calls.len() == 0 {
        0
    } else {
        successes(calls.drop_last()) + if calls.last().success {
            1nat
        } else {
            0nat
        }
    }
}

/// A run of logins with any outcomes leaves one new row per login, in order,
/// each recording its own call with its own identifier, keeps every earlier
/// row and session, and opens exactly one session per successful login: a
/// new row succeeded exactly when a new session points at it, no two new
/// sessions point at the same row, and each points at a successful row of
/// its own user.
pub proof fn lemma_login_run(s: SessionState, calls: Seq<LoginCall>)
    requires
        s.attempts.len() + calls.len() <= MAX_ROWS,
        s.sessions.len() + calls.len() <= MAX_ROWS,
        forall|i: int| 0 <= i < calls.len() && (#[trigger] calls[i]).success ==> calls[i].user is Some,
    ensures
        ({
            let t = after_logins(s, calls);
            let n = s.attempts.len() as int;
            &&& t.attempts.len() == n + calls.len()
            &&& t.attempts.subrange(0, n) == s.attempts
            &&& forall|i: int|
                n <= i < t.attempts.len() ==> {
                    let c = calls[i - n];
                    &&& (#[trigger] t.attempts[i]).id == i + 1
                    &&& t.attempts[i].success == c.success
                    &&& t.attempts[i].user_id == c.user
                    &&& t.attempts[i].username_or_email == c.username_or_email
                    &&& t.attempts[i].remote_address == c.remote_address
                }
            &&& t.sessions.len() == s.sessions.len() + successes(calls)
            &&& t.sessions.subrange(0, s.sessions.len() as int) == s.sessions
            &&& forall|j: int|
                s.sessions.len() <= j < t.sessions.len() ==> {
                    let a = (#[trigger] t.sessions[j]).login_attempt_id;
                    &&& n < a <= t.attempts.len()
                    &&& t.attempts[a - 1].success
                    &&& t.attempts[a - 1].user_id == Some(t.sessions[j].user_id)
                }
            &&& forall|j1: int, j2: int|
                #![trigger t.sessions[j1], t.sessions[j2]]
                s.sessions.len() <= j1 < j2 < t.sessions.len() ==> t.sessions[j1].login_attempt_id
                    < t.sessions[j2].login_attempt_id
            &&& forall|i: int|
                n <= i < t.attempts.len() && (#[trigger] t.attempts[i]).success ==> exists|j: int|
                    s.sessions.len() <= j < t.sessions.len() && (#[trigger] t.sessions[j]).login_attempt_id
                        == i + 1
        }),
    decreases calls.len(),
{
    let n = s.attempts.len() as int;
    if calls.len() > 0 {
        let prev = calls.drop_last();
        assert forall|i: int| 0 <= i < prev.len() && (#[trigger] prev[i]).success implies prev[i].user is Some by {
            assert(calls[i] == prev[i]);
        }
        lemma_login_run(s, prev);
        let p = after_logins(s, prev);
        let t = after_logins(s, calls);
        let c = calls.last();
        assert(t.attempts =~= p.attempts.push(
            next_attempt(p, c.user, c.username_or_email, c.remote_address, c.success, c.now),
        ));
        assert(t.attempts.subrange(0, n) =~= p.attempts.subrange(0, n));
        assert forall|i: int| n <= i < t.attempts.len() implies {
            let d = calls[i - n];
            &&& (#[trigger] t.attempts[i]).id == i + 1
            &&& t.attempts[i].success == d.success
            &&& t.attempts[i].user_id == d.user
            &&& t.attempts[i].username_or_email == d.username_or_email
            &&& t.attempts[i].remote_address == d.remote_address
        } by {
            if i < p.attempts.len() {
                assert(prev[i - n] == calls[i - n]);
            }
        }
        assert(successes(prev) <= prev.len()) by {
            lemma_successes_bounded(prev);
        }
        assert(t.sessions.subrange(0, s.sessions.len() as int) =~= p.sessions.subrange(
            0,
            s.sessions.len() as int,
        ));
        let m = p.sessions.len() as int;
        if c.success {
            assert(t.sessions.len() == m + 1);
            assert(t.sessions.subrange(0, m) =~= p.sessions);
            assert forall|j: int| s.sessions.len() <= j < m implies #[trigger] t.sessions[j] == p.sessions[j] by {
                assert(t.sessions.subrange(0, m)[j] == t.sessions[j]);
            }
            assert(t.sessions[m].login_attempt_id == p.attempts.len() + 1);
            assert forall|i: int|
                n <= i < t.attempts.len() && (#[trigger] t.attempts[i]).success implies exists|j: int|
                    s.sessions.len() <= j < t.sessions.len() && (#[trigger] t.sessions[j]).login_attempt_id
                        == i + 1 by {
                if i < p.attempts.len() {
                    assert(p.attempts[i] == t.attempts[i]);
                    let j = choose|j: int|
                        s.sessions.len() <= j < p.sessions.len() && (#[trigger] p.sessions[j]).login_attempt_id
                            == i + 1;
                    assert(t.sessions[j] == p.sessions[j]);
                } else {
                    assert(t.sessions[m].login_attempt_id == i + 1);
                }
            }
        } else {
            assert(t.sessions == p.sessions);
            assert forall|i: int|
                n <= i < t.attempts.len() && (#[trigger] t.attempts[i]).success implies exists|j: int|
                    s.sessions.len() <= j < t.sessions.len() && (#[trigger] t.sessions[j]).login_attempt_id
                        == i + 1 by {
                assert(i < p.attempts.len());
                assert(p.attempts[i] == t.attempts[i]);
            }
        }
        assert forall|j: int| s.sessions.len() <= j < t.sessions.len() implies {
            let a = (#[trigger] t.sessions[j]).login_attempt_id;
            &&& n < a <= t.attempts.len()
            &&& t.attempts[a - 1].success
            &&& t.attempts[a - 1].user_id == Some(t.sessions[j].user_id)
        } by {
            if j < m {
                let a = p.sessions[j].login_attempt_id;
                assert(t.sessions[j] == p.sessions[j]);
                assert(t.attempts[a - 1] == p.attempts[a - 1]);
            }
        }
    } else {
        assert(s.attempts.subrange(0, n) =~= s.attempts);
        assert(s.sessions.subrange(0, s.sessions.len() as int) =~= s.sessions);
    }
}

proof fn lemma_successes_bounded(calls: Seq<LoginCall>)
    ensures
        successes(calls) <= calls.len(),
    decreases calls.len(),
{
    if calls.len() > 0 {
        lemma_successes_bounded(calls.drop_last());
    }
}

} // verus!
