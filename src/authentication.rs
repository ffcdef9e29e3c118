//! Users of the local web interface: their roles, password hashes and
//! tokens, and whether anonymous visitors may view data.

use vstd::prelude::*;
use sha2::Digest;
use crate::text::str_eq;

verus! {

/// Access rights of a user.
#[derive(Clone, Copy, Debug, PartialEq, Eq, Structural)]
pub enum UserRole {
    /// The user may view data but not change it.
    ReadOnly,
    /// The user may make any change.
    Admin,
}

/// Why an authentication request was refused.
#[derive(Clone, Copy, Debug, PartialEq, Eq, Structural)]
pub enum AuthError {
    /// No user has that name.
    UserNotFound,
    /// The name and password match no user, and anonymous viewing is off.
    InvalidLogin,
    /// No user holds that token, and anonymous viewing is off.
    UnknownToken,
}

/// What `str::to_lowercase` returns for a string.
pub uninterp spec fn lower_of(s: Seq<char>) -> Seq<char>;

/// What the upper-case hex rendering of the SHA-256 digest of a string's
/// UTF-8 bytes is.
pub uninterp spec fn sha256_upper_hex_of(s: Seq<char>) -> Seq<char>;

/// Relies on `str::to_lowercase`: the result depends on the characters alone.
#[verifier::external_body]
fn lowercase(s: &str) -> (r: String)
    ensures
        r@ == lower_of(s@),
{
    s.to_lowercase()
}

/// Relies on `sha2::Sha256` (`update`, `finalize`) and on the `UpperHex`
/// format of its 32-byte digest, which writes two upper-case digits per byte.
#[verifier::external_body]
fn sha256_upper_hex(s: &str) -> (r: String)
    ensures
        r@ == sha256_upper_hex_of(s@),
        r@.len() == 64,
{
    let mut hasher = sha2::Sha256::new();
    hasher.update(s.as_bytes());
    format!("{:X}", hasher.finalize())
}

/// Relies on `uuid::Uuid::new_v4` and its `Display` form: a fresh random
/// token, of which nothing is promised.
#[verifier::external_body]
fn new_token() -> (r: String) {
    uuid::Uuid::new_v4().to_string()
}

/// The role that a role name stands for: `admin` in any case, else read-only.
pub open spec fn role_from_name(s: Seq<char>) -> UserRole {
    if lower_of(s) == "admin"@ {
        UserRole::Admin
    } else {
        UserRole::ReadOnly
    }
}

impl UserRole {
    /// Reads a role name.
    pub fn from_name(s: &str) -> (r: UserRole)
        ensures
            r == role_from_name(s@),
    {
        let lower = lowercase(s);
        if str_eq(lower.as_str(), "admin") {
            UserRole::Admin
        } else {
            UserRole::ReadOnly
        }
    }

    /// The role's name.
    pub fn to_string(&self) -> (r: String)
        ensures
            r@ == (match self {
                UserRole::Admin => "admin"@,
                UserRole::ReadOnly => "read-only"@,
            }),
    {
        match self {
            UserRole::Admin => String::from_str("admin"),
            UserRole::ReadOnly => String::from_str("read-only"),
        }
    }
}

impl From<&str> for UserRole {
    fn from(s: &str) -> (r: UserRole) {
        UserRole::from_name(s)
    }
}

impl vstd::std_specs::convert::FromSpecImpl<&str> for UserRole {
    open spec fn obeys_from_spec() -> bool {
        true
    }

    open spec fn from_spec(s: &str) -> UserRole {
        role_from_name(s@)
    }
}

/// One user of the web interface.
#[derive(Clone, Debug)]
pub struct WebUser {
    pub username: String,
    pub password_hash: String,
    pub role: UserRole,
    pub token: String,
}

/// The users of the web interface.
#[derive(Clone, Debug)]
pub struct WebUsers {
    /// Whether visitors without a login may view data, read-only.
    pub allow_unauthenticated_to_view: bool,
    pub users: Vec<WebUser>,
}

/// The position of the first user of `s` that satisfies `p`.
pub open spec fn first_match(s: Seq<WebUser>, p: spec_fn(WebUser) -> bool) -> Option<int>
    decreases s.len(),
{
    if s.len() == 0 {
        None
    } else if p(s[0]) {
        Some(0)
    } else {
        match first_match(s.drop_first(), p) {
            Some(i) => Some(i + 1),
            None => None,
        }
    }
}

proof fn lemma_first_match(s: Seq<WebUser>, p: spec_fn(WebUser) -> bool, i: int)
    requires
        0 <= i <= s.len(),
        forall|j: int| 0 <= j < i ==> !p(#[trigger] s[j]),
        i < s.len() ==> p(s[i]),
    ensures
        first_match(s, p) == (if i < s.len() { Some(i) } else { None::<int> }),
    decreases s.len(),
{
    if s.len() > 0 && i > 0 {
        assert(!p(s[0]));
        assert forall|j: int| 0 <= j < i - 1 implies !p(#[trigger] s.drop_first()[j]) by {
            assert(s.drop_first()[j] == s[j + 1]);
        }
        lemma_first_match(s.drop_first(), p, i - 1);
    }
}

pub open spec fn has_name(name: Seq<char>) -> spec_fn(WebUser) -> bool {
    |u: WebUser| u.username@ == name
}

pub open spec fn has_token(token: Seq<char>) -> spec_fn(WebUser) -> bool {
    |u: WebUser| u.token@ == token
}

pub open spec fn has_login(name: Seq<char>, hash: Seq<char>) -> spec_fn(WebUser) -> bool {
    |u: WebUser| u.username@ == name && u.password_hash@ == hash
}

/// The string that is hashed for a password: the password between two fixed salts.
pub open spec fn salted(password: Seq<char>) -> Seq<char> {
    "!x"@ + password + "_LibreQosLikesPasswordsForDinner"@
}

/// The stored hash of a password.
pub open spec fn password_hash_of(password: Seq<char>) -> Seq<char> {
    sha256_upper_hex_of(salted(password))
}

/// The users of `s` whose name is not `name`, in their order.
pub open spec fn without_user(s: Seq<WebUser>, name: Seq<char>) -> Seq<WebUser>
    decreases s.len(),
{
    if s.len() == 0 {
        s
    } else if s.last().username@ != name {
        without_user(s.drop_last(), name).push(s.last())
    } else {
        without_user(s.drop_last(), name)
    }
}

impl WebUsers {
    /// An empty set of users, with anonymous viewing off.
    pub fn new() -> (r: WebUsers)
        ensures
            r.users@.len() == 0,
            !r.allow_unauthenticated_to_view,
    {
        WebUsers { allow_unauthenticated_to_view: false, users: Vec::new() }
    }

    /// The hash stored for `password`.
    pub fn hash_password(password: &str) -> (r: String)
        ensures
            r@ == password_hash_of(password@),
    {
        let salted = String::from_str("!x").concat(password).concat("_LibreQosLikesPasswordsForDinner");
        sha256_upper_hex(salted.as_str())
    }

    /// The position of the first user named `username`.
    fn position_of_name(&self, username: &str) -> (r: Option<usize>)
        ensures
            r.is_none() ==> first_match(self.users@, has_name(username@)) is None,
            r.is_some() ==> r.unwrap() < self.users@.len()
                && first_match(self.users@, has_name(username@)) == Some(r.unwrap() as int),
    {
        let mut i: usize = 0;
        while i < self.users.len()
            invariant
                i <= self.users@.len(),
                forall|j: int| 0 <= j < i ==> !has_name(username@)(#[trigger] self.users@[j]),
            decreases self.users@.len() - i,
        {
            if str_eq(self.users[i].username.as_str(), username) {
                proof { lemma_first_match(self.users@, has_name(username@), i as int); }
                return Some(i);
            }
            i = i + 1;
        }
        proof { lemma_first_match(self.users@, has_name(username@), i as int); }
        None
    }

    /// The position of the first user holding `token`.
    fn position_of_token(&self, token: &str) -> (r: Option<usize>)
        ensures
            r.is_none() ==> first_match(self.users@, has_token(token@)) is None,
            r.is_some() ==> r.unwrap() < self.users@.len()
                && first_match(self.users@, has_token(token@)) == Some(r.unwrap() as int),
    {
        let mut i: usize = 0;
        while i < self.users.len()
            invariant
                i <= self.users@.len(),
                forall|j: int| 0 <= j < i ==> !has_token(token@)(#[trigger] self.users@[j]),
            decreases self.users@.len() - i,
        {
            if str_eq(self.users[i].token.as_str(), token) {
                proof { lemma_first_match(self.users@, has_token(token@), i as int); }
                return Some(i);
            }
            i = i + 1;
        }
        proof { lemma_first_match(self.users@, has_token(token@), i as int); }
        None
    }

    /// Logs in with the stored hash of a password: the token of the first
    /// user with that name and hash; else `default` where anonymous viewing
    /// is on; else `InvalidLogin`.
    pub fn login_with_hash(&self, username: &str, password_hash: &str) -> (r: Result<String, AuthError>)
        ensures
            match first_match(self.users@, has_login(username@, password_hash@)) {
                Some(i) => r is Ok && r->Ok_0@ == self.users@[i].token@,
                None => if self.allow_unauthenticated_to_view {
                    r is Ok && r->Ok_0@ == "default"@
                } else {
                    r == Err::<String, AuthError>(AuthError::InvalidLogin)
                },
            },
    {
        let mut i: usize = 0;
        while i < self.users.len()
            invariant
                i <= self.users@.len(),
                forall|j: int| 0 <= j < i ==> !has_login(username@, password_hash@)(#[trigger] self.users@[j]),
            decreases self.users@.len() - i,
        {
            if str_eq(self.users[i].username.as_str(), username)
                && str_eq(self.users[i].password_hash.as_str(), password_hash) {
                proof { lemma_first_match(self.users@, has_login(username@, password_hash@), i as int); }
                return Ok(self.users[i].token.clone());
            }
            i = i + 1;
        }
        proof { lemma_first_match(self.users@, has_login(username@, password_hash@), i as int); }
        if self.allow_unauthenticated_to_view {
            Ok(String::from_str("default"))
        } else {
            Err(AuthError::InvalidLogin)
        }
    }

    /// Attempts a login: on success, the token that identifies the user;
    /// `default` for an anonymous visitor where anonymous viewing is on.
    pub fn login(&self, username: &str, password: &str) -> (r: Result<String, AuthError>)
        ensures
            match first_match(self.users@, has_login(username@, password_hash_of(password@))) {
                Some(i) => r is Ok && r->Ok_0@ == self.users@[i].token@,
                None => if self.allow_unauthenticated_to_view {
                    r is Ok && r->Ok_0@ == "default"@
                } else {
                    r == Err::<String, AuthError>(AuthError::InvalidLogin)
                },
            },
    {
        let hash = Self::hash_password(password);
        self.login_with_hash(username, hash.as_str())
    }

    /// The role of the user holding `token`; read-only for anyone else where
    /// anonymous viewing is on; else `UnknownToken`.
    pub fn get_role_from_token(&self, token: &str) -> (r: Result<UserRole, AuthError>)
        ensures
            r == (match first_match(self.users@, has_token(token@)) {
                Some(i) => Ok(self.users@[i].role),
                None => if self.allow_unauthenticated_to_view {
                    Ok(UserRole::ReadOnly)
                } else {
                    Err(AuthError::UnknownToken)
                },
            }),
    {
        match self.position_of_token(token) {
            Some(i) => Ok(self.users[i].role),
            None => if self.allow_unauthenticated_to_view {
                Ok(UserRole::ReadOnly)
            } else {
                Err(AuthError::UnknownToken)
            },
        }
    }

    /// The name of the user holding `token`, or `Anonymous`.
    pub fn get_username(&self, token: &str) -> (r: String)
        ensures
            r@ == (match first_match(self.users@, has_token(token@)) {
                Some(i) => self.users@[i].username@,
                None => "Anonymous"@,
            }),
    {
        match self.position_of_token(token) {
            Some(i) => self.users[i].username.clone(),
            None => String::from_str("Anonymous"),
        }
    }

    /// Sets whether visitors without a login may view data, read-only.
    pub fn allow_anonymous(&mut self, allow: bool)
        ensures
            final(self).allow_unauthenticated_to_view == allow,
            final(self).users@ == old(self).users@,
    {
        self.allow_unauthenticated_to_view = allow;
    }

    /// Whether visitors without a login may view data.
    pub fn do_we_allow_anonymous(&self) -> (r: bool)
        ensures
            r == self.allow_unauthenticated_to_view,
    {
        self.allow_unauthenticated_to_view
    }

    /// Removes every user named `username`; `UserNotFound` where there is none.
    pub fn remove_user(&mut self, username: &str) -> (r: Result<(), AuthError>)
        ensures
            final(self).users@ == without_user(old(self).users@, username@),
            final(self).allow_unauthenticated_to_view == old(self).allow_unauthenticated_to_view,
            r is Err <==> !(exists|j: int| 0 <= j < old(self).users@.len() && (#[trigger] old(self).users@[j]).username@ == username@),
            r is Err ==> r == Err::<(), AuthError>(AuthError::UserNotFound),
    {
        let ghost old_users = self.users@;
        let mut kept: Vec<WebUser> = Vec::new();
        let mut rest: Vec<WebUser> = Vec::new();
        std::mem::swap(&mut rest, &mut self.users);
        let mut removed = false;
        let mut i: usize = 0;
        let n = rest.len();
        while rest.len() > 0
            invariant
                rest@.len() + i == n,
                n == old_users.len(),
                forall|j: int| 0 <= j < rest@.len() ==> #[trigger] rest@[j] == old_users[i + j],
                kept@ == without_user(old_users.take(i as int), username@),
                removed <==> exists|j: int| 0 <= j < i && (#[trigger] old_users[j]).username@ == username@,
            decreases rest@.len(),
        {
            let ghost prev_rest = rest@;
            let ghost pre = old_users.take(i as int);
            let ghost next = old_users.take(i + 1);
            let u = rest.remove(0);
            assert(next.drop_last() =~= pre);
            assert(next.last() == u);
            assert(u == old_users[i as int]);
            if str_eq(u.username.as_str(), username) {
                removed = true;
            } else {
                kept.push(u);
            }
            i = i + 1;
            assert forall|j: int| 0 <= j < rest@.len() implies #[trigger] rest@[j] == old_users[i + j] by {
                assert(rest@[j] == prev_rest[j + 1]);
            }
        }
        assert(old_users.take(i as int) =~= old_users);
        self.users = kept;
        if removed {
            Ok(())
        } else {
            Err(AuthError::UserNotFound)
        }
    }

    /// Gives the first user named `username` the password hash and role, or,
    /// where there is none, adds a user with them and `fresh_token`. Returns
    /// the user's token.
    pub fn add_or_update_user_hashed(&mut self, username: &str, password_hash: String, role: UserRole, fresh_token: String) -> (r: String)
        ensures
            final(self).allow_unauthenticated_to_view == old(self).allow_unauthenticated_to_view,
            match first_match(old(self).users@, has_name(username@)) {
                Some(i) => {
                    &&& final(self).users@.len() == old(self).users@.len()
                    &&& forall|j: int| 0 <= j < old(self).users@.len() && j != i ==> #[trigger] final(self).users@[j] == old(self).users@[j]
                    &&& final(self).users@[i].username@ == old(self).users@[i].username@
                    &&& final(self).users@[i].password_hash@ == password_hash@
                    &&& final(self).users@[i].role == role
                    &&& final(self).users@[i].token@ == old(self).users@[i].token@
                    &&& r@ == old(self).users@[i].token@
                },
                None => {
                    &&& final(self).users@.len() == old(self).users@.len() + 1
                    &&& forall|j: int| 0 <= j < old(self).users@.len() ==> #[trigger] final(self).users@[j] == old(self).users@[j]
                    &&& final(self).users@.last().username@ == username@
                    &&& final(self).users@.last().password_hash@ == password_hash@
                    &&& final(self).users@.last().role == role
                    &&& final(self).users@.last().token@ == fresh_token@
                    &&& r@ == fresh_token@
                },
            },
    {
        match self.position_of_name(username) {
            Some(i) => {
                let token = self.users[i].token.clone();
                let updated = WebUser {
                    username: self.users[i].username.clone(),
                    password_hash,
                    role,
                    token: self.users[i].token.clone(),
                };
                self.users.set(i, updated);
                token
            },
            None => {
                let token = fresh_token.clone();
                self.users.push(WebUser { username: String::from_str(username), password_hash, role, token: fresh_token });
                token
            },
        }
    }

    /// Gives the first user named `username` the password and role, or adds
    /// a user with them and a new random token. Returns the user's token.
    pub fn add_or_update_user(&mut self, username: &str, password: &str, role: UserRole) -> (r: String)
        ensures
            final(self).allow_unauthenticated_to_view == old(self).allow_unauthenticated_to_view,
            match first_match(old(self).users@, has_name(username@)) {
                Some(i) => {
                    &&& final(self).users@.len() == old(self).users@.len()
                    &&& forall|j: int| 0 <= j < old(self).users@.len() && j != i ==> #[trigger] final(self).users@[j] == old(self).users@[j]
                    &&& final(self).users@[i].username@ == old(self).users@[i].username@
                    &&& final(self).users@[i].password_hash@ == password_hash_of(password@)
                    &&& final(self).users@[i].role == role
                    &&& final(self).users@[i].token@ == old(self).users@[i].token@
                    &&& r@ == old(self).users@[i].token@
                },
                None => {
                    &&& final(self).users@.len() == old(self).users@.len() + 1
                    &&& forall|j: int| 0 <= j < old(self).users@.len() ==> #[trigger] final(self).users@[j] == old(self).users@[j]
                    &&& final(self).users@.last().username@ == username@
                    &&& final(self).users@.last().password_hash@ == password_hash_of(password@)
                    &&& final(self).users@.last().role == role
                    &&& final(self).users@.last().token@ == r@
                },
            },
    {
        let hash = Self::hash_password(password);
        let fresh = new_token();
        self.add_or_update_user_hashed(username, hash, role, fresh)
    }
}

impl Default for WebUsers {
    fn default() -> (r: WebUsers)
        ensures
            r.users@.len() == 0,
            !r.allow_unauthenticated_to_view,
    {
        WebUsers::new()
    }
}

} // verus!
