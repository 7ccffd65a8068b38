//! The first login bookkeeping of the server: a list of logged addresses and
//! the form checks of a login request.
use vstd::prelude::*;

verus! {

/// A user of the user file.
#[derive(Debug, PartialEq, Eq, Clone)]
pub struct UserData {
    pub username: String,
    pub password: String,
}

/// A login: who, from which address, and when (nanoseconds since the Unix epoch).
#[derive(Debug, PartialEq, Eq, Clone)]
pub struct UserLoginState {
    pub username: String,
    pub current_ip: String,
    pub log_date: u64,
}

/// The logins known to the server.
#[derive(Debug, PartialEq, Eq, Clone, Default)]
pub struct LoginStates {
    pub states: Vec<UserLoginState>,
}

impl LoginStates {
    /// Whether some login comes from `ip_address`.
    pub fn check_if_logged_in(&self, ip_address: String) -> (res: bool)
        ensures
            res == exists|i: int| 0 <= i < self.states@.len() && (#[trigger] self.states@[i]).current_ip@ == ip_address@,
    {
        let mut i: usize = 0;
        while i < self.states.len()
            invariant
                i <= self.states.len(),
                forall|j: int| 0 <= j < i ==> (#[trigger] self.states@[j]).current_ip@ != ip_address@,
            decreases self.states.len() - i,
        {
            if self.states[i].current_ip == ip_address {
                return true;
            }
            i += 1;
        }
        false
    }
}

/// No login at all.
pub fn init_login_states() -> (res: LoginStates)
    ensures
        res.states@.len() == 0,
{
    LoginStates { states: Vec::new() }
}

impl DeepView for UserData {
    type V = (Seq<char>, Seq<char>);

    open spec fn deep_view(&self) -> (Seq<char>, Seq<char>) {
        (self.username@, self.password@)
    }
}

/// A login request against the users of the user file: an empty username
/// or password is refused, then the account is accepted only when a user has
/// both this username and this password.
pub fn try_login(username: String, password: String, users: &Vec<UserData>) -> (res: Result<bool, String>)
    ensures
        username@.len() == 0 ==> (res matches Err(m) && m@ == "Username is empty"@),
        username@.len() > 0 && password@.len() == 0 ==> (res matches Err(m) && m@ == "Password is empty"@),
        username@.len() > 0 && password@.len() > 0 && users.deep_view().contains((username@, password@))
            ==> res == Ok::<bool, String>(true),
        username@.len() > 0 && password@.len() > 0 && !users.deep_view().contains((username@, password@))
            ==> (res matches Err(m) && m@ == "Invalid username and/or password."@),
{
    if username.as_str().is_empty() {
        return Err("Username is empty".to_owned());
    }
    if password.as_str().is_empty() {
        return Err("Password is empty".to_owned());
    }
    let mut i: usize = 0;
    while i < users.len()
        invariant
            username@.len() > 0,
            password@.len() > 0,
            i <= users.len(),
            forall|j: int| 0 <= j < i ==> #[trigger] users.deep_view()[j] != (username@, password@),
        decreases users.len() - i,
    {
        let u = &users[i];
        assert(users.deep_view()[i as int] == u.deep_view());
        if u.username == username && u.password == password {
            assert(users.deep_view()[i as int] == (username@, password@));
            return Ok(true);
        }
        i += 1;
    }
    Err("Invalid username and/or password.".to_owned())
}

/// Whether the address is logged in.
pub fn check_login(login_states: &LoginStates, ip_address: String) -> (res: bool)
    ensures
        res == exists|i: int| 0 <= i < login_states.states@.len() && (#[trigger] login_states.states@[i]).current_ip@ == ip_address@,
{
    login_states.check_if_logged_in(ip_address)
}

} // verus!
