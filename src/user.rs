use vstd::prelude::*;
use vstd::string::*;
use crate::app_error::{AppError, StatusCode};
use crate::jwt::{expiry, issue_token, signed_token, token_claims, token_live, validate_token_at, TokenConfig};
use crate::password::{
    bcrypt_verdict, hash_password, policy_of, validate_password, verify_password,
};

verus! {

/// Whether validator accepts `s` as an e-mail address (the HTML5 form rules).
pub uninterp spec fn email_valid(s: Seq<char>) -> bool;

/// Relies on validator::ValidateEmail::validate_email for `&str`.
#[verifier::external_body]
fn is_email(s: &str) -> (r: bool)
    ensures
        r == email_valid(s@),
{
    validator::ValidateEmail::validate_email(&s)
}

/// A registered account: the password is kept as its hash, and `token` is
/// the one live session credential, if any.
#[derive(Debug)]
pub struct User {
    pub id: i32,
    pub username: String,
    pub password: String,
    pub token: Option<String>,
}

/// Credentials sent to sign up or log in.
#[derive(Debug)]
pub struct UserRequest {
    pub username: String,
    pub password: String,
}

/// What a client is shown of an account; the password hash never leaves.
#[derive(Debug)]
pub struct UserResponse {
    pub id: i32,
    pub username: String,
    pub token: Option<String>,
}

pub open spec fn user_response(u: User) -> UserResponse {
    UserResponse { id: u.id, username: u.username, token: u.token }
}

/// Whether the account's stored credential is `token`.
pub open spec fn holds_token(u: User, token: Seq<char>) -> bool {
    u.token is Some && u.token->0@ == token
}

/// The account with its session credential replaced.
pub open spec fn with_token(u: User, token: Option<String>) -> User {
    User { id: u.id, username: u.username, password: u.password, token }
}

/// Whether a sign-up request passes: an e-mail address as user name and a
/// password that meets the policy.
pub open spec fn signup_valid(req: UserRequest) -> bool {
    email_valid(req.username@) && policy_of(req.password@) is Ok
}

/// Checks a sign-up request; a password that breaks the policy is reported
/// (with the rule's message) before a user name that is no e-mail address.
pub fn validate_user_request(req: &UserRequest) -> (r: Result<(), AppError>)
    ensures
        r is Ok <==> signup_valid(*req),
        r is Err ==> r->Err_0.code == StatusCode::BadRequest,
        policy_of(req.password@) is Err
            ==> r is Err && r->Err_0.message@ == policy_of(req.password@)->Err_0.spec_message(),
        policy_of(req.password@) is Ok && !email_valid(req.username@)
            ==> r is Err && r->Err_0.message@ == "Username must be a valid e-mail address."@,
{
    match validate_password(req.password.as_str()) {
        Ok(()) => {},
        Err(rule) => {
            return Err(AppError::new(StatusCode::BadRequest, rule.message()));
        },
    }
    if !is_email(req.username.as_str()) {
        return Err(AppError::new(StatusCode::BadRequest, "Username must be a valid e-mail address.".to_owned()));
    }
    Ok(())
}

/// The prefix of an authorization header that carries a bearer credential.
pub open spec fn bearer_prefix() -> Seq<char> {
    seq!['B', 'e', 'a', 'r', 'e', 'r', ' ']
}

/// The credential in an authorization header, if it has the bearer form.
pub open spec fn bearer_of(header: Seq<char>) -> Option<Seq<char>> {
    if header.len() >= 7 && header.subrange(0, 7) == bearer_prefix() {
        Some(header.subrange(7, header.len() as int))
    } else {
        None
    }
}

/// The credential of an authorization header `Bearer <token>`; a missing
/// header or another form is unauthorized.
pub fn bearer_token(header: Option<&str>) -> (r: Result<String, AppError>)
    ensures
        r is Ok <==> header is Some && bearer_of(header->0@) is Some,
        r is Ok ==> r->Ok_0@ == bearer_of(header->0@)->0,
        r is Err ==> r->Err_0.code == StatusCode::Unauthorized,
{
    let no_token = AppError::new(StatusCode::Unauthorized, "No token found!".to_owned());
    let h = match header {
        Some(h) => h,
        None => {
            return Err(no_token);
        },
    };
    let n = h.unicode_len();
    if n < 7 {
        return Err(no_token);
    }
    let prefix = ['B', 'e', 'a', 'r', 'e', 'r', ' '];
    assert(prefix@ =~= bearer_prefix());
    let mut i: usize = 0;
    while i < 7
        invariant
            n == h@.len(),
            n >= 7,
            i <= 7,
            prefix@ == bearer_prefix(),
            no_token.code == StatusCode::Unauthorized,
            header == Some(h),
            forall|k: int| 0 <= k < i ==> h@[k] == bearer_prefix()[k],
        decreases 7 - i,
    {
        if h.get_char(i) != prefix[i] {
            assert(h@.subrange(0, 7)[i as int] != bearer_prefix()[i as int]);
            return Err(no_token);
        }
        i = i + 1;
    }
    assert(h@.subrange(0, 7) =~= bearer_prefix());
    Ok(h.substring_char(7, n).to_owned())
}

/// Whether stored accounts can form a table: ids positive, below
/// `i32::MAX` and unique, and user names unique.
pub open spec fn user_rows_acceptable(users: Seq<User>) -> bool {
    &&& forall|i: int| 0 <= i < users.len() ==> 0 < #[trigger] users[i].id < i32::MAX
    &&& forall|i: int, j: int| 0 <= i < users.len() && 0 <= j < users.len() && i != j
        ==> #[trigger] users[i].id != #[trigger] users[j].id && users[i].username@ != users[j].username@
}

/// The accounts of the service, in storage order, the id the next one
/// gets, and the serial the next issued token carries.
pub struct UserTable {
    pub users: Vec<User>,
    pub next_id: i32,
    pub token_serial: u64,
}

impl UserTable {
    /// Ids are positive, below `next_id` and unique; user names are unique.
    pub open spec fn wf(&self) -> bool {
        &&& self.next_id >= 1
        &&& forall|i: int| 0 <= i < self.users@.len() ==> 0 < #[trigger] self.users@[i].id < self.next_id
        &&& forall|i: int, j: int|
            0 <= i < self.users@.len() && 0 <= j < self.users@.len() && i != j
                ==> #[trigger] self.users@[i].id != #[trigger] self.users@[j].id
                    && self.users@[i].username@ != self.users@[j].username@
    }

    /// An empty table.
    pub fn new() -> (r: UserTable)
        ensures
            r.wf(),
            r.users@.len() == 0,
            r.next_id == 1,
            r.token_serial == 0,
    {
        UserTable { users: Vec::new(), next_id: 1, token_serial: 0 }
    }

    /// A table over stored accounts, if their ids are positive, below
    /// `i32::MAX` and unique, and their user names unique; the next id
    /// follows the largest.
    pub fn from_rows(users: Vec<User>) -> (r: Option<UserTable>)
        ensures
            r is Some <==> user_rows_acceptable(users@),
            r is Some ==> r->0.wf() && r->0.users@ == users@,
    {
        let mut max: i32 = 0;
        let mut i: usize = 0;
        while i < users.len()
            invariant
                i <= users@.len(),
                0 <= max < i32::MAX,
                forall|k: int| 0 <= k < i ==> 0 < #[trigger] users@[k].id <= max,
                forall|a: int, b: int| 0 <= a < i && 0 <= b < i && a != b
                    ==> #[trigger] users@[a].id != #[trigger] users@[b].id
                        && users@[a].username@ != users@[b].username@,
            decreases users@.len() - i,
        {
            let id = users[i].id;
            if id <= 0 || id == i32::MAX {
                return None;
            }
            let mut j: usize = 0;
            while j < i
                invariant
                    i < users@.len(),
                    j <= i,
                    id == users@[i as int].id,
                    forall|k: int| 0 <= k < j ==> #[trigger] users@[k].id != id,
                    forall|k: int| 0 <= k < j ==> #[trigger] users@[k].username@ != users@[i as int].username@,
                decreases i - j,
            {
                if users[j].id == id || users[j].username.eq(&users[i].username) {
                    return None;
                }
                j = j + 1;
            }
            if id > max {
                max = id;
            }
            i = i + 1;
        }
        Some(UserTable { users, next_id: max + 1, token_serial: 0 })
    }

    /// The position of the account named `username`, if there is one.
    pub fn index_of_username(&self, username: &String) -> (r: Option<usize>)
        ensures
            r is Some ==> r->0 < self.users@.len() && self.users@[r->0 as int].username@ == username@,
            r is None ==> forall|k: int| 0 <= k < self.users@.len() ==> #[trigger] self.users@[k].username@ != username@,
    {
        let mut i: usize = 0;
        while i < self.users.len()
            invariant
                i <= self.users@.len(),
                forall|k: int| 0 <= k < i ==> #[trigger] self.users@[k].username@ != username@,
            decreases self.users@.len() - i,
        {
            if self.users[i].username.eq(username) {
                return Some(i);
            }
            i = i + 1;
        }
        None
    }

    /// The position of the account with id `id`, if there is one.
    pub fn index_of_id(&self, id: i32) -> (r: Option<usize>)
        ensures
            r is Some ==> r->0 < self.users@.len() && self.users@[r->0 as int].id == id,
            r is None ==> forall|k: int| 0 <= k < self.users@.len() ==> #[trigger] self.users@[k].id != id,
    {
        let mut i: usize = 0;
        while i < self.users.len()
            invariant
                i <= self.users@.len(),
                forall|k: int| 0 <= k < i ==> #[trigger] self.users@[k].id != id,
            decreases self.users@.len() - i,
        {
            if self.users[i].id == id {
                return Some(i);
            }
            i = i + 1;
        }
        None
    }

    /// The position of the first account whose stored credential is `token`.
    pub fn index_of_token(&self, token: &String) -> (r: Option<usize>)
        ensures
            r is Some ==> r->0 < self.users@.len() && holds_token(self.users@[r->0 as int], token@)
                && forall|k: int| 0 <= k < r->0 ==> !holds_token(#[trigger] self.users@[k], token@),
            r is None ==> forall|k: int| 0 <= k < self.users@.len() ==> !holds_token(#[trigger] self.users@[k], token@),
    {
        let mut i: usize = 0;
        while i < self.users.len()
            invariant
                i <= self.users@.len(),
                forall|k: int| 0 <= k < i ==> !holds_token(#[trigger] self.users@[k], token@),
            decreases self.users@.len() - i,
        {
            match &self.users[i].token {
                Some(t) => {
                    if t.eq(token) {
                        return Some(i);
                    }
                },
                None => {},
            }
            i = i + 1;
        }
        None
    }
}

/// The serial after `serial`, wrapping round at the largest.
pub open spec fn next_serial(serial: u64) -> u64 {
    if serial == u64::MAX {
        0
    } else {
        (serial + 1) as u64
    }
}

/// Whether `token` is the one issued at `now` with serial `jti` under `config`.
pub open spec fn issued_token(config: &TokenConfig, token: Seq<char>, now: u64, jti: u64) -> bool {
    &&& token == signed_token(now, expiry(now, config.lifetime_secs), jti, config.secret@)
    &&& token_claims(token, config.secret@) == Some((Some(now), Some(expiry(now, config.lifetime_secs)), Some(jti)))
}

/// Issues a token at `now` with serial `serial`, or with the serial after
/// it where the first would equal `previous`; returns the token and the
/// serial it carries.
fn fresh_token(config: &TokenConfig, now: u64, serial: u64, previous: &Option<String>) -> (r: Result<(String, u64), AppError>)
    ensures
        r is Ok,
        r->Ok_0.1 == serial || r->Ok_0.1 == next_serial(serial),
        issued_token(config, r->Ok_0.0@, now, r->Ok_0.1),
        previous is Some ==> r->Ok_0.0@ != previous->0@,
{
    let first = match issue_token(config, now, serial) {
        Ok(t) => t,
        Err(e) => {
            return Err(e);
        },
    };
    match previous {
        Some(p) => {
            if first.eq(p) {
                let next = if serial == u64::MAX {
                    0
                } else {
                    serial + 1
                };
                let second = match issue_token(config, now, next) {
                    Ok(t) => t,
                    Err(e) => {
                        return Err(e);
                    },
                };
                return Ok((second, next));
            }
        },
        None => {},
    }
    Ok((first, serial))
}

/// Stores a new account whose password hash is `hash`, with a token issued
/// at `now`; a taken user name or an exhausted id space is an internal error.
pub fn register_hashed(table: &mut UserTable, config: &TokenConfig, username: String, hash: String, now: u64) -> (r: Result<UserResponse, AppError>)
    requires
        old(table).wf(),
    ensures
        final(table).wf(),
        r is Err ==> *final(table) == *old(table) && r->Err_0.code == StatusCode::InternalServerError,
        (exists|k: int| 0 <= k < old(table).users@.len() && #[trigger] old(table).users@[k].username@ == username@)
            ==> r is Err && r->Err_0.message@ == "Username already exists."@,
        old(table).next_id == i32::MAX ==> r is Err,
        r is Ok <==> old(table).next_id < i32::MAX
            && forall|k: int| 0 <= k < old(table).users@.len() ==> #[trigger] old(table).users@[k].username@ != username@,
        r is Ok ==> {
            let u = final(table).users@.last();
            &&& final(table).users@ == old(table).users@.push(u)
            &&& final(table).next_id == old(table).next_id + 1
            &&& final(table).token_serial == next_serial(old(table).token_serial)
            &&& u.id == old(table).next_id
            &&& u.username == username
            &&& u.password == hash
            &&& u.token is Some
            &&& issued_token(config, u.token->0@, now, old(table).token_serial)
            &&& r->Ok_0 == user_response(u)
        },
{
    if table.index_of_username(&username).is_some() {
        return Err(AppError::new(StatusCode::InternalServerError, "Username already exists.".to_owned()));
    }
    if table.next_id == i32::MAX {
        return Err(AppError::new(StatusCode::InternalServerError, "No user id is left.".to_owned()));
    }
    let token = match issue_token(config, now, table.token_serial) {
        Ok(t) => t,
        Err(e) => {
            return Err(e);
        },
    };
    let id = table.next_id;
    let response = UserResponse { id, username: username.clone(), token: Some(token.clone()) };
    let user = User { id, username, password: hash, token: Some(token) };
    assert(response == user_response(user));
    table.users.push(user);
    table.next_id = id + 1;
    table.token_serial = if table.token_serial == u64::MAX {
        0
    } else {
        table.token_serial + 1
    };
    assert(final(table).users@ == old(table).users@.push(user));
    Ok(response)
}

/// Signs up an account: the request is validated, the password hashed, and
/// the account stored with a token issued at `now`.
pub fn create_user(table: &mut UserTable, config: &TokenConfig, req: UserRequest, now: u64) -> (r: Result<UserResponse, AppError>)
    requires
        old(table).wf(),
    ensures
        final(table).wf(),
        r is Err ==> *final(table) == *old(table),
        !signup_valid(req) ==> r is Err && r->Err_0.code == StatusCode::BadRequest,
        policy_of(req.password@) is Err
            ==> r is Err && r->Err_0.message@ == policy_of(req.password@)->Err_0.spec_message(),
        signup_valid(req) ==> (r is Err ==> r->Err_0.code == StatusCode::InternalServerError),
        signup_valid(req) && (exists|k: int| 0 <= k < old(table).users@.len()
            && #[trigger] old(table).users@[k].username@ == req.username@) ==> r is Err,
        signup_valid(req) && old(table).next_id == i32::MAX ==> r is Err,
        r is Ok ==> {
            let u = final(table).users@.last();
            &&& final(table).users@ == old(table).users@.push(u)
            &&& final(table).next_id == old(table).next_id + 1
            &&& u.id == old(table).next_id
            &&& u.username == req.username
            &&& bcrypt_verdict(req.password@, u.password@) == Some(true)
            &&& u.token is Some
            &&& issued_token(config, u.token->0@, now, old(table).token_serial)
            &&& r->Ok_0 == user_response(u)
        },
{
    match validate_user_request(&req) {
        Ok(()) => {},
        Err(e) => {
            return Err(e);
        },
    }
    let hash = match hash_password(req.password) {
        Ok(h) => h,
        Err(e) => {
            return Err(e);
        },
    };
    register_hashed(table, config, req.username, hash, now)
}

/// Every account, in storage order.
pub fn get_all_users(table: &UserTable) -> (r: Vec<UserResponse>)
    ensures
        r@ == table.users@.map_values(|u: User| user_response(u)),
{
    let mut out: Vec<UserResponse> = Vec::new();
    let mut i: usize = 0;
    while i < table.users.len()
        invariant
            i <= table.users@.len(),
            out@ == table.users@.subrange(0, i as int).map_values(|u: User| user_response(u)),
        decreases table.users@.len() - i,
    {
        let u = &table.users[i];
        let token = match &u.token {
            Some(t) => Some(t.clone()),
            None => None,
        };
        out.push(UserResponse { id: u.id, username: u.username.clone(), token });
        assert(out@ =~= table.users@.subrange(0, i + 1).map_values(|u: User| user_response(u)));
        i = i + 1;
    }
    assert(table.users@.subrange(0, table.users@.len() as int) =~= table.users@);
    out
}

/// Logs in: both fields are required, the account must exist and the
/// password match its hash; a new token issued at `now` replaces the old
/// one and differs from it.
pub fn login(table: &mut UserTable, config: &TokenConfig, req: UserRequest, now: u64) -> (r: Result<UserResponse, AppError>)
    requires
        old(table).wf(),
    ensures
        final(table).wf(),
        r is Err ==> *final(table) == *old(table),
        req.username@.len() == 0 || req.password@.len() == 0 ==> r is Err
            && r->Err_0.code == StatusCode::BadRequest
            && r->Err_0.message@ == "Please enter all login details."@,
        req.username@.len() > 0 && req.password@.len() > 0 ==> {
            &&& (forall|k: int| 0 <= k < old(table).users@.len() ==> #[trigger] old(table).users@[k].username@ != req.username@)
                ==> r is Err && r->Err_0.code == StatusCode::NotFound
                    && r->Err_0.message@ == "Username not found."@
            &&& forall|k: int| 0 <= k < old(table).users@.len() && #[trigger] old(table).users@[k].username@ == req.username@ ==> {
                &&& bcrypt_verdict(req.password@, old(table).users@[k].password@) is None
                    ==> r is Err && r->Err_0.code == StatusCode::InternalServerError
                &&& bcrypt_verdict(req.password@, old(table).users@[k].password@) == Some(false)
                    ==> r is Err && r->Err_0.code == StatusCode::Unauthorized
                        && r->Err_0.message@ == "Wrong credentials."@
                &&& bcrypt_verdict(req.password@, old(table).users@[k].password@) == Some(true) ==> r is Ok
            }
        },
        r is Ok ==> exists|k: int| {
            let u = final(table).users@[k];
            &&& 0 <= k < old(table).users@.len()
            &&& #[trigger] old(table).users@[k].username@ == req.username@
            &&& bcrypt_verdict(req.password@, old(table).users@[k].password@) == Some(true)
            &&& u.token is Some
            &&& u == with_token(old(table).users@[k], u.token)
            &&& (final(table).token_serial == next_serial(old(table).token_serial)
                && issued_token(config, u.token->0@, now, old(table).token_serial)
                || final(table).token_serial == next_serial(next_serial(old(table).token_serial))
                && issued_token(config, u.token->0@, now, next_serial(old(table).token_serial)))
            &&& old(table).users@[k].token is Some ==> u.token->0@ != old(table).users@[k].token->0@
            &&& final(table).users@ == old(table).users@.update(k, u)
            &&& final(table).next_id == old(table).next_id
            &&& r->Ok_0 == user_response(u)
        },
{
    if req.username.as_str().is_empty() || req.password.as_str().is_empty() {
        return Err(AppError::new(StatusCode::BadRequest, "Please enter all login details.".to_owned()));
    }
    let i = match table.index_of_username(&req.username) {
        Some(i) => i,
        None => {
            return Err(AppError::new(StatusCode::NotFound, "Username not found.".to_owned()));
        },
    };
    proof {
        assert forall|k: int| 0 <= k < table.users@.len() && #[trigger] table.users@[k].username@ == req.username@
            implies k == i by {
            if k != i {
                assert(table.users@[k].id != table.users@[i as int].id);
            }
        }
    }
    let matched = match verify_password(req.password, table.users[i].password.as_str()) {
        Ok(b) => b,
        Err(e) => {
            return Err(e);
        },
    };
    if !matched {
        return Err(AppError::new(StatusCode::Unauthorized, "Wrong credentials.".to_owned()));
    }
    let (token, used) = match fresh_token(config, now, table.token_serial, &table.users[i].token) {
        Ok(p) => p,
        Err(e) => {
            return Err(e);
        },
    };
    let ghost before = *table;
    let current = &table.users[i];
    let user = User {
        id: current.id,
        username: current.username.clone(),
        password: current.password.clone(),
        token: Some(token.clone()),
    };
    let response = UserResponse { id: user.id, username: user.username.clone(), token: Some(token) };
    assert(user == with_token(before.users@[i as int], user.token));
    assert(response == user_response(user));
    table.users.set(i, user);
    table.token_serial = if used == u64::MAX {
        0
    } else {
        used + 1
    };
    assert forall|a: int, b: int|
        0 <= a < table.users@.len() && 0 <= b < table.users@.len() && a != b
            implies #[trigger] table.users@[a].id != #[trigger] table.users@[b].id
                && table.users@[a].username@ != table.users@[b].username@ by {
        assert(table.users@[a].id == before.users@[a].id && table.users@[a].username == before.users@[a].username);
        assert(table.users@[b].id == before.users@[b].id && table.users@[b].username == before.users@[b].username);
    }
    assert forall|a: int| 0 <= a < table.users@.len() implies 0 < #[trigger] table.users@[a].id < table.next_id by {
        assert(table.users@[a].id == before.users@[a].id);
    }
    Ok(response)
}

/// Logs out the account with id `user_id`: its stored credential is cleared.
pub fn logout(table: &mut UserTable, user_id: i32) -> (r: Result<(), AppError>)
    requires
        old(table).wf(),
    ensures
        final(table).wf(),
        final(table).next_id == old(table).next_id,
        r is Ok <==> exists|k: int| 0 <= k < old(table).users@.len() && #[trigger] old(table).users@[k].id == user_id,
        r is Err ==> r->Err_0.code == StatusCode::NotFound && *final(table) == *old(table),
        r is Ok ==> exists|k: int| 0 <= k < old(table).users@.len() && #[trigger] old(table).users@[k].id == user_id
            && final(table).users@ == old(table).users@.update(k, with_token(old(table).users@[k], None)),
{
    let i = match table.index_of_id(user_id) {
        Some(i) => i,
        None => {
            return Err(AppError::new(StatusCode::NotFound, "User not found.".to_owned()));
        },
    };
    let ghost before = *table;
    let current = &table.users[i];
    let user = User {
        id: current.id,
        username: current.username.clone(),
        password: current.password.clone(),
        token: None,
    };
    assert(user == with_token(before.users@[i as int], None));
    table.users.set(i, user);
    assert forall|a: int, b: int|
        0 <= a < table.users@.len() && 0 <= b < table.users@.len() && a != b
            implies #[trigger] table.users@[a].id != #[trigger] table.users@[b].id
                && table.users@[a].username@ != table.users@[b].username@ by {
        assert(table.users@[a].id == before.users@[a].id && table.users@[a].username == before.users@[a].username);
        assert(table.users@[b].id == before.users@[b].id && table.users@[b].username == before.users@[b].username);
    }
    assert forall|a: int| 0 <= a < table.users@.len() implies 0 < #[trigger] table.users@[a].id < table.next_id by {
        assert(table.users@[a].id == before.users@[a].id);
    }
    Ok(())
}

/// The access gate: the bearer credential of the authorization header must
/// be live at `now` and be the stored credential of an account, whose id is
/// returned; anything else is unauthorized.
pub fn check_authentication(table: &UserTable, config: &TokenConfig, header: Option<&str>, now: u64) -> (r: Result<i32, AppError>)
    ensures
        r is Err ==> r->Err_0.code == StatusCode::Unauthorized,
        r is Ok <==> header is Some && bearer_of(header->0@) is Some && {
            let token = bearer_of(header->0@)->0;
            &&& token_live(config, token, now)
            &&& exists|k: int| 0 <= k < table.users@.len() && holds_token(#[trigger] table.users@[k], token)
        },
        r is Ok ==> exists|k: int| 0 <= k < table.users@.len()
            && holds_token(#[trigger] table.users@[k], bearer_of(header->0@)->0)
            && table.users@[k].id == r->Ok_0,
{
    let token = match bearer_token(header) {
        Ok(t) => t,
        Err(e) => {
            return Err(e);
        },
    };
    match validate_token_at(config, token.as_str(), now) {
        Ok(_) => {},
        Err(e) => {
            return Err(e);
        },
    }
    match table.index_of_token(&token) {
        Some(i) => Ok(table.users[i].id),
        None => Err(AppError::new(StatusCode::Unauthorized, "Something went wrong".to_owned())),
    }
}

/// Once an account's credential is replaced by a different one, the old
/// credential resolves to no stored credential of that account.
pub proof fn lemma_new_token_revokes_old(table: UserTable, i: int, previous: Seq<char>, fresh: String)
    requires
        table.wf(),
        0 <= i < table.users@.len(),
        fresh@ != previous,
    ensures
        forall|k: int| 0 <= k < table.users@.len()
            && holds_token(#[trigger] table.users@.update(i, with_token(table.users@[i], Some(fresh)))[k], previous)
            ==> table.users@.update(i, with_token(table.users@[i], Some(fresh)))[k].id != table.users@[i].id,
{
    let updated = table.users@.update(i, with_token(table.users@[i], Some(fresh)));
    assert forall|k: int| 0 <= k < table.users@.len() && holds_token(#[trigger] updated[k], previous)
        implies updated[k].id != table.users@[i].id by {
        if k != i {
            assert(updated[k] == table.users@[k]);
        }
    }
}

} // verus!
