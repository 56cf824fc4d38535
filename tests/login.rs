use chrono::{TimeZone, Utc};
use deepwell::{Error, Server, Timestamp, UserId};

const IP_ADDRESS_1: Option<&str> = Some("alpha-beta.local");
const IP_ADDRESS_2: Option<&str> = Some("1.1.1.1");
const IP_ADDRESS_3: Option<&str> = None;

fn check_err(error: Error) {
    match error {
        Error::AuthenticationFailed => (),
        _ => panic!("Error wasn't invalid username or password"),
    }
}

fn start_time() -> Timestamp {
    Utc.with_ymd_and_hms(2001, 1, 1, 6, 0, 0).unwrap().timestamp_micros()
}

// All calls of one test share the instant of its enclosing transaction.
fn now() -> Timestamp {
    Utc.with_ymd_and_hms(2020, 3, 1, 12, 0, 0).unwrap().timestamp_micros()
}

fn setup(server: &mut Server) -> UserId {
    server
        .create_user("squirrelbird", "jenny@example.net", "blackmoonhowls")
        .expect("Unable to create user")
}

fn login_manager_internal_id(server: &mut Server, user_id: UserId) {
    let error = server
        .try_login_id(user_id, "letmein", IP_ADDRESS_2, now())
        .expect_err("Allowed invalid login");
    check_err(error);

    let error = server
        .try_login_id(user_id, "backmonhowl", IP_ADDRESS_1, now())
        .expect_err("Allowed invalid login");
    check_err(error);

    server
        .try_login_id(user_id, "blackmoonhowls", IP_ADDRESS_3, now())
        .expect("Unable to login");

    let attempts = server
        .get_login_attempts(user_id, start_time())
        .expect("Unable to get login attempts");

    assert_eq!(attempts.len(), 3);

    let first = &attempts[0];
    let second = &attempts[1];
    let third = &attempts[2];

    assert_eq!(first.user_id(), Some(user_id));
    assert_eq!(first.username_or_email(), None);
    assert_eq!(first.remote_address(), IP_ADDRESS_2);
    assert_eq!(first.success(), false);

    assert_eq!(second.user_id(), Some(user_id));
    assert_eq!(second.username_or_email(), None);
    assert_eq!(second.remote_address(), IP_ADDRESS_1);
    assert_eq!(second.success(), false);

    assert_eq!(third.user_id(), Some(user_id));
    assert_eq!(third.username_or_email(), None);
    assert_eq!(third.remote_address(), IP_ADDRESS_3);
    assert_eq!(third.success(), true);
}

fn login_manager_internal_name(server: &mut Server) {
    let error = server
        .try_login("squirrel", "blackmoonhowls", IP_ADDRESS_3, now())
        .expect_err("Allowed invalid login");
    check_err(error);

    let error = server
        .try_login("squirrelbird", "letmein", IP_ADDRESS_1, now())
        .expect_err("Allowed invalid login");
    check_err(error);

    server
        .try_login("squirrelbird", "blackmoonhowls", IP_ADDRESS_2, now())
        .expect("Unable to login");

    let error = server
        .try_login("jenny@gmail.com", "blackmoonhowls", IP_ADDRESS_1, now())
        .expect_err("Allowed invalid login");
    check_err(error);

    let error = server
        .try_login("jenny@example.net", "letmein", IP_ADDRESS_3, now())
        .expect_err("Allowed invalid login");
    check_err(error);

    server
        .try_login("jenny@example.net", "blackmoonhowls", IP_ADDRESS_2, now())
        .expect("Unable to login");

    let attempts = server
        .get_all_login_attempts(start_time())
        .expect("Unable to get login attempts");

    assert!(
        attempts.len() >= 6,
        "Only {} login attempts found",
        attempts.len(),
    );
}

#[test]
fn login_manager_id() {
    let mut server = Server::new();
    let user_id = setup(&mut server);
    login_manager_internal_id(&mut server, user_id);
}

#[test]
fn login_manager_name() {
    let mut server = Server::new();
    setup(&mut server);
    login_manager_internal_name(&mut server);
}
