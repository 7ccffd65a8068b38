//! Accounts, login submissions and the login sessions kept by the server.
use vstd::prelude::*;

verus! {

/// Name of the account file, found in the working directory of the server.
pub const ACCOUNTS_FILE_NAME: &'static str = "hcb_auth.json";

/// How long a login lasts without being used, in seconds (2 hours).
pub const LOG_PERSISTANCE_DURATION_SECONDS: u64 = 7200;

/// The same duration in nanoseconds, the unit of login dates.
pub const LOG_PERSISTANCE_DURATION_NANOS: u64 = 7200000000000;

/// An account of the account file, and what a login form submits.
#[derive(Debug, PartialEq, Eq, Clone, Default)]
pub struct LoginAccount {
    pub username: String,
    pub password: String,
}

/// The accounts of the account file.
#[derive(Debug, PartialEq, Eq)]
pub struct LoginAccountCollection {
    pub accounts: Vec<LoginAccount>,
}

impl DeepView for LoginAccount {
    type V = (Seq<char>, Seq<char>);

    open spec fn deep_view(&self) -> (Seq<char>, Seq<char>) {
        (self.username@, self.password@)
    }
}

impl LoginAccountCollection {
    /// Whether an account has the submitted username and password.
    pub fn contains_account(&self, submission: &LoginAccount) -> (res: bool)
        ensures
            res == self.accounts.deep_view().contains(submission.deep_view()),
    {
        let mut i: usize = 0;
        while i < self.accounts.len()
            invariant
                i <= self.accounts.len(),
                forall|j: int| 0 <= j < i ==> #[trigger] self.accounts.deep_view()[j] != submission.deep_view(),
            decreases self.accounts.len() - i,
        {
            let a = &self.accounts[i];
            assert(self.accounts.deep_view()[i as int] == a.deep_view());
            if a.username == submission.username && a.password == submission.password {
                return true;
            }
            i += 1;
        }
        false
    }
}

/// A login kept by the server: who, from which address, and when it was last
/// used (nanoseconds since the Unix epoch).
#[derive(Debug, PartialEq, Eq, Clone)]
pub struct UserLoginState {
    pub username: String,
    pub current_ip: String,
    pub log_date: u64,
}

impl DeepView for UserLoginState {
    type V = (Seq<char>, Seq<char>, u64);

    open spec fn deep_view(&self) -> (Seq<char>, Seq<char>, u64) {
        (self.username@, self.current_ip@, self.log_date)
    }
}

/// The logins kept by the server.
#[derive(Debug, PartialEq, Eq, Clone, Default)]
pub struct SharedLoginStates {
    pub states: Vec<UserLoginState>,
}

impl SharedLoginStates {
    /// No login at all.
    pub fn init_states() -> (res: Self)
        ensures
            res.states@.len() == 0,
    {
        SharedLoginStates { states: Vec::new() }
    }
}

/// A login as plain values: username, address, date of last use.
pub type LoginModel = (Seq<char>, Seq<char>, u64);

/// The login has passed out at `now`: its last use plus the persistence
/// duration lies before `now`.
pub open spec fn login_passed_out(e: LoginModel, now: u64) -> bool {
    e.2 + LOG_PERSISTANCE_DURATION_NANOS < now
}

/// The login is still valid at `now`.
pub open spec fn still_logged(now: u64) -> spec_fn(LoginModel) -> bool {
    |e: LoginModel| !login_passed_out(e, now)
}

/// The login is not from `ip`.
pub open spec fn not_from(ip: Seq<char>) -> spec_fn(LoginModel) -> bool {
    |e: LoginModel| e.1 != ip
}

/// Logins from `ip` get `now` as their date of last use.
pub open spec fn refreshed(s: Seq<LoginModel>, ip: Seq<char>, now: u64) -> Seq<LoginModel> {
    s.map_values(|e: LoginModel| if e.1 == ip { (e.0, e.1, now) } else { e })
}

/// Some login comes from `ip`.
pub open spec fn has_login_from(s: Seq<LoginModel>, ip: Seq<char>) -> bool {
    exists|i: int| 0 <= i < s.len() && (#[trigger] s[i]).1 == ip
}

fn is_passed_out(log_date: u64, now: u64) -> (res: bool)
    ensures
        res == (log_date + LOG_PERSISTANCE_DURATION_NANOS < now),
{
    now > log_date && now - log_date > LOG_PERSISTANCE_DURATION_NANOS
}

/// Checks whether the request address is logged in. Logins that have passed
/// out are dropped first; the logins from the address are then refreshed to
/// `current_time`.
pub fn check_login(states: &mut Vec<UserLoginState>, cur_ip: &str, current_time: u64) -> (res: bool)
    ensures
        final(states).deep_view() == refreshed(old(states).deep_view().filter(still_logged(current_time)), cur_ip@, current_time),
        res == has_login_from(old(states).deep_view().filter(still_logged(current_time)), cur_ip@),
{
    let ghost orig = old(states).deep_view();
    let ghost pred = still_logged(current_time);
    let mut rest: Vec<UserLoginState> = Vec::new();
    std::mem::swap(states, &mut rest);
    let ghost rest0 = rest@;
    let n = rest.len();
    let mut i: usize = 0;
    let mut is_logged_in = false;
    assert(orig.take(0) =~= Seq::<LoginModel>::empty());
    assert(rest@.skip(0) =~= rest@);
    assert(states.deep_view() =~= refreshed(orig.take(0).filter(pred), cur_ip@, current_time));
    while i < n
        invariant
            n == orig.len(),
            rest0.len() == n,
            forall|t: int| 0 <= t < n ==> #[trigger] orig[t] == rest0[t].deep_view(),
            pred == still_logged(current_time),
            i <= n,
            rest@ == rest0.skip(i as int),
            states.deep_view() == refreshed(orig.take(i as int).filter(pred), cur_ip@, current_time),
            is_logged_in == has_login_from(orig.take(i as int).filter(pred), cur_ip@),
        decreases n - i,
    {
        let mut e = rest.remove(0);
        let ghost ev = orig[i as int];
        let ghost prev = orig.take(i as int).filter(pred);
        proof {
            assert(e == rest0[i as int]);
            assert(rest@ =~= rest0.skip(i + 1));
            assert(orig.take(i + 1) =~= orig.take(i as int).push(ev));
            orig.take(i as int).lemma_filter_push(ev, pred);
        }
        if !is_passed_out(e.log_date, current_time) {
            if e.current_ip == cur_ip.to_owned() {
                is_logged_in = true;
                e.log_date = current_time;
            }
            let ghost before = states.deep_view();
            states.push(e);
            proof {
                let f = |x: LoginModel| if x.1 == cur_ip@ { (x.0, x.1, current_time) } else { x };
                assert(e.deep_view() == f(ev));
                assert(states.deep_view() =~= before.push(e.deep_view()));
                assert(refreshed(prev.push(ev), cur_ip@, current_time) =~= refreshed(prev, cur_ip@, current_time).push(f(ev)));
                assert(states.deep_view() =~= refreshed(prev.push(ev), cur_ip@, current_time));
                if has_login_from(prev.push(ev), cur_ip@) && !has_login_from(prev, cur_ip@) {
                    let k = choose|k: int| 0 <= k < prev.push(ev).len() && (#[trigger] prev.push(ev)[k]).1 == cur_ip@;
                    assert(k == prev.len());
                }
                if has_login_from(prev, cur_ip@) {
                    let k = choose|k: int| 0 <= k < prev.len() && (#[trigger] prev[k]).1 == cur_ip@;
                    assert(prev.push(ev)[k] == prev[k]);
                }
                if ev.1 == cur_ip@ {
                    assert(prev.push(ev)[prev.len() as int] == ev);
                }
            }
        }
        i += 1;
    }
    assert(orig.take(n as int) =~= orig);
    is_logged_in
}

/// Adds a login of `username` from `cur_ip`, last used at `current_time`.
pub fn log_in_user(states: &mut Vec<UserLoginState>, username: &String, cur_ip: &String, current_time: u64) -> (res: bool)
    ensures
        final(states).deep_view() == old(states).deep_view().push((username@, cur_ip@, current_time)),
        res,
{
    let ghost before = states.deep_view();
    states.push(UserLoginState { username: username.clone(), current_ip: cur_ip.clone(), log_date: current_time });
    assert(states.deep_view() =~= before.push((username@, cur_ip@, current_time)));
    true
}

fn keep_matching(states: &mut Vec<UserLoginState>, ip: &str, now: u64, by_ip: bool)
    ensures
        by_ip ==> final(states).deep_view() == old(states).deep_view().filter(not_from(ip@)),
        !by_ip ==> final(states).deep_view() == old(states).deep_view().filter(still_logged(now)),
{
    let ghost orig = old(states).deep_view();
    let ghost pred = if by_ip { not_from(ip@) } else { still_logged(now) };
    let mut rest: Vec<UserLoginState> = Vec::new();
    std::mem::swap(states, &mut rest);
    let ghost rest0 = rest@;
    let n = rest.len();
    let mut i: usize = 0;
    let ip_string = ip.to_owned();
    assert(orig.take(0) =~= Seq::<LoginModel>::empty());
    assert(rest@.skip(0) =~= rest@);
    assert(states.deep_view() =~= orig.take(0).filter(pred));
    while i < n
        invariant
            n == orig.len(),
            rest0.len() == n,
            forall|t: int| 0 <= t < n ==> #[trigger] orig[t] == rest0[t].deep_view(),
            pred == (if by_ip { not_from(ip@) } else { still_logged(now) }),
            ip_string@ == ip@,
            i <= n,
            rest@ == rest0.skip(i as int),
            states.deep_view() == orig.take(i as int).filter(pred),
        decreases n - i,
    {
        let e = rest.remove(0);
        let ghost ev = orig[i as int];
        proof {
            assert(e == rest0[i as int]);
            assert(rest@ =~= rest0.skip(i + 1));
            assert(orig.take(i + 1) =~= orig.take(i as int).push(ev));
            orig.take(i as int).lemma_filter_push(ev, pred);
        }
        let keep = if by_ip {
            !(e.current_ip == ip_string)
        } else {
            !is_passed_out(e.log_date, now)
        };
        if keep {
            let ghost before = states.deep_view();
            states.push(e);
            assert(states.deep_view() =~= before.push(ev));
        }
        i += 1;
    }
    assert(orig.take(n as int) =~= orig);
}

/// Removes the logins from `cur_ip`.
pub fn log_out_user(states: &mut Vec<UserLoginState>, cur_ip: &str)
    ensures
        final(states).deep_view() == old(states).deep_view().filter(not_from(cur_ip@)),
{
    keep_matching(states, cur_ip, 0, true);
}

/// Removes the logins that have passed out at `current_time`.
pub fn clear_passed_out_logins(states: &mut Vec<UserLoginState>, current_time: u64)
    ensures
        final(states).deep_view() == old(states).deep_view().filter(still_logged(current_time)),
{
    keep_matching(states, "", current_time, false);
}

/// The server's answer to a login request when the username or the password
/// is empty, or `None` when both are filled in.
pub fn login_fields_error(account: &LoginAccount) -> (res: Option<String>)
    ensures
        account.username@.len() == 0 ==> (res matches Some(m) && m@ == "Username is empty"@),
        account.username@.len() > 0 && account.password@.len() == 0 ==> (res matches Some(m) && m@ == "Password is empty"@),
        account.username@.len() > 0 && account.password@.len() > 0 ==> res is None,
{
    if account.username.as_str().is_empty() {
        Some("Username is empty".to_owned())
    } else if account.password.as_str().is_empty() {
        Some("Password is empty".to_owned())
    } else {
        None
    }
}

/// Handles a login request from `cur_ip` at `current_time` against the
/// accounts of the account file: an empty username or password is refused,
/// an unknown account is refused, and a known one is logged in.
pub fn server_try_login(
    account: &LoginAccount,
    accounts: &LoginAccountCollection,
    states: &mut Vec<UserLoginState>,
    cur_ip: &String,
    current_time: u64,
) -> (res: Result<bool, String>)
    ensures
        account.username@.len() == 0 ==> (res matches Err(m) && m@ == "Username is empty"@),
        account.username@.len() > 0 && account.password@.len() == 0 ==> (res matches Err(m) && m@ == "Password is empty"@),
        account.username@.len() > 0 && account.password@.len() > 0 && !accounts.accounts.deep_view().contains(account.deep_view())
            ==> (res matches Err(m) && m@ == "Invalid username and/or password."@),
        account.username@.len() > 0 && account.password@.len() > 0 && accounts.accounts.deep_view().contains(account.deep_view())
            ==> res == Ok::<bool, String>(true)
                && final(states).deep_view() == old(states).deep_view().push((account.username@, cur_ip@, current_time)),
        !(account.username@.len() > 0 && account.password@.len() > 0 && accounts.accounts.deep_view().contains(account.deep_view()))
            ==> final(states).deep_view() == old(states).deep_view(),
{
    match login_fields_error(account) {
        Some(m) => Err(m),
        None => {
            if accounts.contains_account(account) {
                let r = log_in_user(states, &account.username, cur_ip, current_time);
                Ok(r)
            } else {
                Err("Invalid username and/or password.".to_owned())
            }
        },
    }
}

/// Law: right after a login from an address, a login check from that address
/// succeeds at any time up to the persistence duration later.
pub proof fn lemma_login_then_check(s: Seq<LoginModel>, user: Seq<char>, ip: Seq<char>, t0: u64, t: u64)
    requires
        t <= t0 + LOG_PERSISTANCE_DURATION_NANOS,
    ensures
        has_login_from(s.push((user, ip, t0)).filter(still_logged(t)), ip),
{
    let e = (user, ip, t0);
    s.lemma_filter_push(e, still_logged(t));
    let f = s.filter(still_logged(t)).push(e);
    assert(f[f.len() - 1] == e);
}

/// Law: after a logout from an address, a login check from that address fails.
pub proof fn lemma_logout_then_check(s: Seq<LoginModel>, ip: Seq<char>, t: u64)
    ensures
        !has_login_from(s.filter(not_from(ip)).filter(still_logged(t)), ip),
{
    let a = s.filter(not_from(ip));
    let b = a.filter(still_logged(t));
    assert forall|i: int| 0 <= i < b.len() implies (#[trigger] b[i]).1 != ip by {
        a.lemma_filter_contains_rev(still_logged(t), b[i]);
        s.lemma_filter_contains_rev(not_from(ip), b[i]);
        assert(b.contains(b[i]));
        assert(a.contains(b[i]));
    }
}

/// Law: a successful login check keeps the address logged in for another
/// persistence duration from the check.
pub proof fn lemma_check_refreshes(s: Seq<LoginModel>, ip: Seq<char>, t: u64, t2: u64)
    requires
        has_login_from(s.filter(still_logged(t)), ip),
        t <= t2 <= t + LOG_PERSISTANCE_DURATION_NANOS,
    ensures
        has_login_from(refreshed(s.filter(still_logged(t)), ip, t).filter(still_logged(t2)), ip),
{
    let a = s.filter(still_logged(t));
    let k = choose|k: int| 0 <= k < a.len() && (#[trigger] a[k]).1 == ip;
    let r = refreshed(a, ip, t);
    assert(r[k] == (a[k].0, ip, t));
    r.lemma_filter_contains(still_logged(t2), k);
    let b = r.filter(still_logged(t2));
    assert(b.contains(r[k]));
    let j = choose|j: int| 0 <= j < b.len() && b[j] == r[k];
    assert(b[j].1 == ip);
}

/// Law: after the clean-up no kept login has passed out.
pub proof fn lemma_clear_leaves_valid(s: Seq<LoginModel>, t: u64)
    ensures
        forall|i: int| 0 <= i < s.filter(still_logged(t)).len() ==> !login_passed_out(#[trigger] s.filter(still_logged(t))[i], t),
{
    let b = s.filter(still_logged(t));
    assert forall|i: int| 0 <= i < b.len() implies !login_passed_out(#[trigger] b[i], t) by {
        s.lemma_filter_pred(still_logged(t), i);
    }
}

} // verus!
