use deepwell::{
    ping, protocol, Dispatcher, Error, Server, SessionManager, UserMetadata,
    MAX_PARALLEL_REQUESTS,
};

const ADDR: Option<&str> = Some("10.0.0.7");

fn alice() -> (Server, u64) {
    let mut server = Server::new();
    let id = server
        .create_user("alice", "alice@example.org", "correct-horse")
        .unwrap();
    (server, id)
}

#[test]
fn alice_scenario() {
    let (mut server, alice) = alice();

    let r = server.try_login("alice", "wrong", ADDR, 1_000);
    assert_eq!(r, Err(Error::AuthenticationFailed));
    let log = server.get_all_login_attempts(0).unwrap();
    assert_eq!(log.len(), 1);
    assert_eq!(log[0].user_id(), Some(alice));
    assert_eq!(log[0].username_or_email(), Some("alice"));
    assert_eq!(log[0].remote_address(), Some("10.0.0.7"));
    assert!(!log[0].success());
    assert_eq!(server.session_manager().session_count(), 0);

    let session_id = server
        .try_login("alice", "correct-horse", ADDR, 2_000)
        .unwrap();
    let log = server.get_all_login_attempts(0).unwrap();
    assert_eq!(log.len(), 2);
    assert!(log[0].success());
    assert_eq!(log[0].attempted_at(), 2_000);
    let session = server.session_manager().get_session(session_id).unwrap();
    assert_eq!(session.session_id(), session_id);
    assert_eq!(session.user_id(), alice);
    assert_eq!(session.login_attempt_id(), log[0].login_attempt_id());

    let r = server.try_login("nobody", "x", ADDR, 3_000);
    assert_eq!(r, Err(Error::AuthenticationFailed));
    let log = server.get_all_login_attempts(0).unwrap();
    assert_eq!(log.len(), 3);
    assert_eq!(log[0].user_id(), None);
    assert_eq!(log[0].username_or_email(), Some("nobody"));
    assert!(!log[0].success());
    assert_eq!(server.session_manager().session_count(), 1);
}

#[test]
fn every_login_logs_one_row() {
    let (mut server, alice) = alice();
    let calls: [(&str, &str); 4] = [
        ("alice", "correct-horse"),
        ("alice", "nope"),
        ("ghost", "correct-horse"),
        ("alice@example.org", "correct-horse"),
    ];
    for (k, (who, secret)) in calls.iter().enumerate() {
        let _ = server.try_login(who, secret, None, 10);
        assert_eq!(server.session_manager().attempt_count(), k + 1);
    }
    let _ = server.try_login_id(alice, "nope", None, 10);
    let _ = server.try_login_id(alice + 40, "correct-horse", None, 10);
    assert_eq!(server.session_manager().attempt_count(), 6);
    let log = server.get_all_login_attempts(0).unwrap();
    // All six share one time stamp, so they are listed in insert order.
    assert_eq!(log[0].user_id(), Some(alice));
    assert_eq!(log[0].username_or_email(), Some("alice"));
    assert!(log[0].success());
    assert_eq!(log[5].user_id(), Some(alice + 40));
    assert_eq!(log[5].username_or_email(), None);
    assert!(!log[5].success());
}

#[test]
fn session_only_for_successful_attempt() {
    let (mut server, alice) = alice();
    assert!(server.try_login_id(alice, "bad", None, 5).is_err());
    assert_eq!(server.session_manager().session_count(), 0);
    let sid = server.try_login_id(alice, "correct-horse", None, 6).unwrap();
    assert_eq!(sid, 1);
    assert_eq!(server.session_manager().session_count(), 1);
    let session = server.session_manager().get_session(sid).unwrap();
    assert_eq!(session.login_attempt_id(), 2);
    assert!(server.session_manager().get_session(2).is_none());
    assert!(server.session_manager().get_session(0).is_none());
}

#[test]
fn unknown_user_and_wrong_password_look_alike() {
    let (mut server, _) = alice();
    let unknown = server.try_login("mallory", "correct-horse", None, 1);
    let wrong = server.try_login("alice", "Correct-horse", None, 2);
    assert_eq!(unknown, wrong);
    assert_eq!(unknown, Err(Error::AuthenticationFailed));
    assert_eq!(wrong.unwrap_err().message(), "invalid username or password");
}

#[test]
fn user_page_is_filtered_ordered_and_capped() {
    let mut server = Server::new();
    let a = server.create_user("a", "a@x", "pa").unwrap();
    let b = server.create_user("b", "b@x", "pb").unwrap();
    for t in 0..150i64 {
        let _ = server.try_login_id(a, "wrong", None, 100 + t);
        let _ = server.try_login_id(b, "wrong", None, 100 + t);
    }
    let page = server.get_login_attempts(a, 120).unwrap();
    assert_eq!(page.len(), 100);
    assert_eq!(page[0].attempted_at(), 249);
    assert_eq!(page[99].attempted_at(), 150);
    for w in page.windows(2) {
        assert!(w[0].attempted_at() > w[1].attempted_at());
    }
    for row in &page {
        assert_eq!(row.user_id(), Some(a));
        assert!(row.attempted_at() > 120);
    }
    let small = server.get_login_attempts(b, 245).unwrap();
    assert_eq!(small.len(), 4);
    assert_eq!(small[3].attempted_at(), 246);
    assert_eq!(server.get_login_attempts(b, 249).unwrap().len(), 0);
    assert_eq!(server.get_all_login_attempts(0).unwrap().len(), 100);
}

#[test]
fn ties_keep_insert_order_and_clock_never_goes_back() {
    let mut manager = SessionManager::new();
    let first = manager.add_login_attempt(Some(3), None, None, false, 500).unwrap();
    let second = manager.add_login_attempt(None, Some("x"), None, false, 400).unwrap();
    let third = manager.add_login_attempt(Some(3), None, None, true, 500).unwrap();
    assert_eq!((first, second, third), (1, 2, 3));
    let page = manager.get_all_login_attempts(0).unwrap();
    let ids: Vec<u64> = page.iter().map(|a| a.login_attempt_id()).collect();
    assert_eq!(ids, vec![1, 2, 3]);
    assert_eq!(page[1].attempted_at(), 500);
    let later = manager.add_login_attempt(Some(3), None, None, false, 900).unwrap();
    let page = manager.get_login_attempts(3, 0).unwrap();
    let ids: Vec<u64> = page.iter().map(|a| a.login_attempt_id()).collect();
    assert_eq!(ids, vec![later, 1, 3]);
}

#[test]
fn marking_success_twice_is_marking_once() {
    let (mut server, alice) = alice();
    let _ = server.try_login_id(alice, "nope", None, 1);
    server.mark_login_successful(1).unwrap();
    let once = server.get_all_login_attempts(0).unwrap();
    assert!(once[0].success());
    server.mark_login_successful(1).unwrap();
    server.mark_login_successful(77).unwrap();
    let twice = server.get_all_login_attempts(0).unwrap();
    assert_eq!(twice.len(), 1);
    assert!(twice[0].success());
    assert_eq!(server.session_manager().session_count(), 0);
}

#[test]
fn many_wrong_passwords_all_logged() {
    let (mut server, alice) = alice();
    let n = 25;
    for _ in 0..n {
        assert_eq!(
            server.try_login_id(alice, "guess", ADDR, 42),
            Err(Error::AuthenticationFailed)
        );
    }
    let log = server.get_login_attempts(alice, 0).unwrap();
    assert_eq!(log.len(), n);
    let mut ids: Vec<u64> = log.iter().map(|a| a.login_attempt_id()).collect();
    ids.sort();
    ids.dedup();
    assert_eq!(ids.len(), n);
    assert!(log.iter().all(|a| !a.success()));
    assert_eq!(server.session_manager().session_count(), 0);
}

#[test]
fn user_directory_operations() {
    let (mut server, alice) = alice();
    assert_eq!(
        server.create_user("alice", "other@example.org", "p").unwrap_err(),
        Error::UserExists
    );
    assert_eq!(
        server.create_user("bob", "alice", "p").unwrap_err(),
        Error::UserExists
    );
    let bob = server.create_user("bob", "bob@example.org", "hunter2").unwrap();
    assert_eq!(bob, 2);
    let u = server.get_user_from_id(bob).unwrap();
    assert_eq!(u.name(), "bob");
    assert_eq!(u.email(), "bob@example.org");
    assert!(u.is_active());
    assert!(!u.is_verified());
    assert_eq!(server.get_user_from_id(9).unwrap_err(), Error::UserNotFound);
    assert_eq!(server.get_user_from_name("alice").unwrap().unwrap().user_id(), alice);
    assert!(server.get_user_from_name("alice@example.org").unwrap().is_none());
    assert_eq!(
        server.get_user_from_email("bob@example.org").unwrap().unwrap().user_id(),
        bob
    );
    let many = server.get_users_from_ids(&[bob, 5, alice]).unwrap();
    assert_eq!(many.len(), 3);
    assert_eq!(many[0].as_ref().unwrap().name(), "bob");
    assert!(many[1].is_none());
    assert_eq!(many[2].as_ref().unwrap().name(), "alice");
    server.verify_user(bob).unwrap();
    server.mark_user_inactive(bob).unwrap();
    let u = server.get_user_from_id(bob).unwrap();
    assert!(u.is_verified());
    assert!(!u.is_active());
    server.mark_user_active(bob).unwrap();
    assert!(server.get_user_from_id(bob).unwrap().is_active());
    assert_eq!(server.verify_user(0), Err(Error::UserNotFound));
    assert_eq!(server.mark_user_inactive(3), Err(Error::UserNotFound));
    assert_eq!(server.try_login("bob@example.org", "hunter2", None, 1), Ok(1));
}

#[test]
fn dispatcher_caps_running_calls() {
    let mut d = Dispatcher::new();
    for call in 0..MAX_PARALLEL_REQUESTS as u64 {
        assert_eq!(d.arrive(call), Some(call));
    }
    assert_eq!(d.running(), 16);
    assert_eq!(d.arrive(100), None);
    assert_eq!(d.arrive(101), None);
    assert_eq!(d.waiting(), 2);
    assert_eq!(d.running(), 16);
    assert_eq!(d.finish(), Some(100));
    assert_eq!(d.finish(), Some(101));
    assert_eq!(d.finish(), None);
    assert_eq!(d.running(), 15);
    assert_eq!(d.waiting(), 0);
}

#[test]
fn informational_calls() {
    assert_eq!(protocol(), "0");
    assert_eq!(ping(), "pong!");
    assert_eq!(Error::ProtocolMismatch.message(), "protocol version mismatch");
    assert_eq!(Error::StorageFailure.message(), "unable to commit to the store");
}

#[test]
fn clock_entry_points_log_and_open_sessions() {
    let (mut server, alice) = alice();
    assert_eq!(
        server.authenticate_by_identifier("alice", "bad", ADDR),
        Err(Error::AuthenticationFailed)
    );
    let sid = server
        .authenticate_by_id(alice, "correct-horse", None)
        .unwrap();
    assert_eq!(sid, 1);
    let log = server.get_all_login_attempts(0).unwrap();
    assert_eq!(log.len(), 2);
    assert!(log[0].attempted_at() > 0);
    assert!(log[0].attempted_at() >= log[1].attempted_at());
}

#[test]
fn edit_user_changes_name_and_email() {
    let (mut server, alice) = alice();
    let bob = server.create_user("bob", "bob@example.org", "pw").unwrap();
    let clash = UserMetadata { name: Some(String::from("alice@example.org")), email: None };
    assert_eq!(server.edit_user(bob, clash), Err(Error::UserExists));
    assert_eq!(server.get_user_from_id(bob).unwrap().name(), "bob");
    let unknown = UserMetadata { name: Some(String::from("carol")), email: None };
    assert_eq!(server.edit_user(7, unknown), Err(Error::UserNotFound));
    let rename = UserMetadata { name: Some(String::from("robert")), email: None };
    server.edit_user(bob, rename).unwrap();
    let u = server.get_user_from_id(bob).unwrap();
    assert_eq!(u.name(), "robert");
    assert_eq!(u.email(), "bob@example.org");
    let own = UserMetadata { name: None, email: Some(String::from("alice")) };
    server.edit_user(alice, own).unwrap();
    assert_eq!(server.get_user_from_id(alice).unwrap().email(), "alice");
    assert_eq!(server.try_login("robert", "pw", None, 1), Ok(1));
}
