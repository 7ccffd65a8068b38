use home_cook_book::auth::{
    check_login, clear_passed_out_logins, log_in_user, log_out_user, login_fields_error, server_try_login,
    LoginAccount, LoginAccountCollection, SharedLoginStates, UserLoginState, LOG_PERSISTANCE_DURATION_NANOS, LOG_PERSISTANCE_DURATION_SECONDS,
    ACCOUNTS_FILE_NAME,
};
use home_cook_book::login_states::{check_login as legacy_check_login, init_login_states, try_login, LoginStates, UserData};

/// Seconds as nanoseconds, the unit of login dates.
fn sec(x: u64) -> u64 {
    x * 1_000_000_000
}

fn s(x: &str) -> String {
    x.to_string()
}

fn account(u: &str, p: &str) -> LoginAccount {
    LoginAccount { username: s(u), password: s(p) }
}

fn accounts() -> LoginAccountCollection {
    LoginAccountCollection { accounts: vec![account("ann", "pw1"), account("bob", "pw2")] }
}

#[test]
fn constants() {
    assert_eq!(ACCOUNTS_FILE_NAME, "hcb_auth.json");
    assert_eq!(LOG_PERSISTANCE_DURATION_SECONDS, 7200);
    assert_eq!(LOG_PERSISTANCE_DURATION_NANOS, sec(7200));
}

#[test]
fn contains_account_needs_both_fields() {
    let a = accounts();
    assert!(a.contains_account(&account("ann", "pw1")));
    assert!(!a.contains_account(&account("ann", "pw2")));
    assert!(!a.contains_account(&account("carl", "pw1")));
}

#[test]
fn login_field_errors() {
    assert_eq!(login_fields_error(&account("", "x")), Some(s("Username is empty")));
    assert_eq!(login_fields_error(&account("", "")), Some(s("Username is empty")));
    assert_eq!(login_fields_error(&account("a", "")), Some(s("Password is empty")));
    assert_eq!(login_fields_error(&account("a", "b")), None);
}

#[test]
fn try_login_outcomes() {
    let mut states = SharedLoginStates::init_states().states;
    let ip = s("10.0.0.1");
    assert_eq!(server_try_login(&account("", "pw1"), &accounts(), &mut states, &ip, sec(100)), Err(s("Username is empty")));
    assert_eq!(server_try_login(&account("ann", ""), &accounts(), &mut states, &ip, sec(100)), Err(s("Password is empty")));
    assert_eq!(
        server_try_login(&account("ann", "bad"), &accounts(), &mut states, &ip, sec(100)),
        Err(s("Invalid username and/or password."))
    );
    assert!(states.is_empty());
    assert_eq!(server_try_login(&account("ann", "pw1"), &accounts(), &mut states, &ip, sec(100)), Ok(true));
    assert_eq!(states, vec![UserLoginState { username: s("ann"), current_ip: ip.clone(), log_date: sec(100) }]);
}

#[test]
fn login_then_check_succeeds_until_it_passes_out() {
    let mut states = Vec::new();
    assert!(log_in_user(&mut states, &s("ann"), &s("1.2.3.4"), sec(1000)));
    assert!(check_login(&mut states.clone(), "1.2.3.4", sec(1000 + 7200)));
    assert!(!check_login(&mut states.clone(), "9.9.9.9", sec(1000)));
    assert!(!check_login(&mut states.clone(), "1.2.3.4", sec(1000 + 7200) + 1));
    let mut late = states.clone();
    assert!(!check_login(&mut late, "1.2.3.4", sec(1000 + 7201)));
    assert!(late.is_empty());
}

#[test]
fn check_refreshes_the_login_date() {
    let mut states = Vec::new();
    log_in_user(&mut states, &s("ann"), &s("a"), sec(0));
    log_in_user(&mut states, &s("bob"), &s("b"), sec(50));
    assert!(check_login(&mut states, "a", sec(7000)));
    assert_eq!(states[0].log_date, sec(7000));
    assert_eq!(states[1].log_date, sec(50));
    // ann stays logged in after the first login would have passed out
    assert!(check_login(&mut states, "a", sec(14000)));
    // bob was not refreshed and has passed out
    assert!(!check_login(&mut states, "b", sec(14000)));
    assert_eq!(states.len(), 1);
}

#[test]
fn logout_removes_every_login_of_the_address() {
    let mut states = Vec::new();
    log_in_user(&mut states, &s("ann"), &s("a"), sec(0));
    log_in_user(&mut states, &s("bob"), &s("b"), sec(0));
    log_in_user(&mut states, &s("ann"), &s("a"), sec(5));
    log_out_user(&mut states, "a");
    assert_eq!(states.len(), 1);
    assert_eq!(states[0].username, "bob");
    assert!(!check_login(&mut states, "a", sec(10)));
}

#[test]
fn clear_passed_out_logins_keeps_recent_ones() {
    let mut states = Vec::new();
    log_in_user(&mut states, &s("old"), &s("a"), sec(0));
    log_in_user(&mut states, &s("new"), &s("b"), sec(100));
    clear_passed_out_logins(&mut states, sec(7250));
    assert_eq!(states.len(), 1);
    assert_eq!(states[0].username, "new");
    clear_passed_out_logins(&mut states, sec(7300));
    assert_eq!(states.len(), 1);
}

#[test]
fn legacy_login_states() {
    let mut ls: LoginStates = init_login_states();
    assert!(!ls.check_if_logged_in(s("x")));
    ls.states.push(home_cook_book::login_states::UserLoginState {
        username: s("u"),
        current_ip: s("x"),
        log_date: 0,
    });
    assert!(ls.check_if_logged_in(s("x")));
    assert!(legacy_check_login(&ls, s("x")));
    assert!(!legacy_check_login(&ls, s("y")));
    let users = vec![UserData { username: s("u"), password: s("p") }, UserData { username: s("v"), password: s("q") }];
    assert_eq!(try_login(s(""), s("p"), &users), Err(s("Username is empty")));
    assert_eq!(try_login(s("u"), s(""), &users), Err(s("Password is empty")));
    assert_eq!(try_login(s("u"), s("p"), &users), Ok(true));
    assert_eq!(try_login(s("v"), s("q"), &users), Ok(true));
    assert_eq!(try_login(s("u"), s("q"), &users), Err(s("Invalid username and/or password.")));
    assert_eq!(try_login(s("w"), s("p"), &users), Err(s("Invalid username and/or password.")));
    assert_eq!(try_login(s("u"), s("p"), &vec![]), Err(s("Invalid username and/or password.")));
}
