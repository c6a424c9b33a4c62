//! Who may do what: roles, the claims of a token, and the checks on a user.

use vstd::prelude::*;

verus! {

/// `uuid::Uuid`: the identifier of a user. It is carried through as it is.
#[verifier::external_type_specification]
#[verifier::external_body]
pub struct ExUuid(uuid::Uuid);

/// What a user may act as.
#[derive(Clone, Copy, Debug, PartialEq, Eq, Structural)]
pub enum Role {
    Admin,
    Helper,
    Tutor,
}

/// The name of a role, in lower case.
pub open spec fn role_name(role: Role) -> Seq<char> {
    match role {
        Role::Admin => "admin"@,
        Role::Helper => "helper"@,
        Role::Tutor => "tutor"@,
    }
}

impl Role {
    /// The name of the role, in lower case.
    pub fn to_string(&self) -> (name: String)
        ensures
            name@ == role_name(*self),
    {
        match self {
            Role::Admin => "admin".to_owned(),
            Role::Helper => "helper".to_owned(),
            Role::Tutor => "tutor".to_owned(),
        }
    }
}

/// A user and the roles they hold.
#[derive(Debug, PartialEq, Eq)]
pub struct UserResponse {
    pub id: uuid::Uuid,
    pub username: String,
    pub roles: Vec<Role>,
}

/// Whether a role is among some roles.
pub fn has_role(roles: &Vec<Role>, role: Role) -> (held: bool)
    ensures
        held == roles@.contains(role),
{
    let mut i: usize = 0;
    while i < roles.len()
        invariant
            i <= roles.len(),
            forall|j: int| 0 <= j < i ==> roles@[j] != role,
        decreases roles.len() - i,
    {
        if roles[i] == role {
            return true;
        }
        i += 1;
    }
    false
}

/// A user who holds the admin role.
#[derive(Debug, PartialEq, Eq)]
pub struct Admin {
    pub id: uuid::Uuid,
    pub username: String,
}

impl Admin {
    /// The user as an admin, if they hold that role.
    pub fn from_user(user: UserResponse) -> (admitted: Option<Admin>)
        ensures
            admitted is Some == user.roles@.contains(Role::Admin),
            admitted matches Some(admin) ==> admin.id == user.id && admin.username == user.username,
    {
        if has_role(&user.roles, Role::Admin) {
            Some(Admin { id: user.id, username: user.username })
        } else {
            None
        }
    }
}

/// A user who holds the tutor role.
#[derive(Debug, PartialEq, Eq)]
pub struct Tutor {
    pub id: uuid::Uuid,
    pub username: String,
}

impl Tutor {
    /// The user as a tutor, if they hold that role.
    pub fn from_user(user: UserResponse) -> (admitted: Option<Tutor>)
        ensures
            admitted is Some == user.roles@.contains(Role::Tutor),
            admitted matches Some(tutor) ==> tutor.id == user.id && tutor.username == user.username,
    {
        if has_role(&user.roles, Role::Tutor) {
            Some(Tutor { id: user.id, username: user.username })
        } else {
            None
        }
    }
}

/// A user who holds the helper role.
#[derive(Debug, PartialEq, Eq)]
pub struct Helper {
    pub id: uuid::Uuid,
    pub username: String,
}

impl Helper {
    /// The user as a helper, if they hold that role.
    pub fn from_user(user: UserResponse) -> (admitted: Option<Helper>)
        ensures
            admitted is Some == user.roles@.contains(Role::Helper),
            admitted matches Some(helper) ==> helper.id == user.id && helper.username == user.username,
    {
        if has_role(&user.roles, Role::Helper) {
            Some(Helper { id: user.id, username: user.username })
        } else {
            None
        }
    }
}

/// A user who is known, whatever their roles.
#[derive(Debug, PartialEq, Eq)]
pub struct AuthenticatedUser {
    pub id: uuid::Uuid,
    pub username: String,
}

impl AuthenticatedUser {
    /// The user as a known user.
    pub fn from_user(user: UserResponse) -> (known: AuthenticatedUser)
        ensures
            known.id == user.id,
            known.username == user.username,
    {
        AuthenticatedUser { id: user.id, username: user.username }
    }
}

/// A request was not authorised.
#[derive(Clone, Debug, PartialEq, Eq)]
pub struct AuthError {
    pub msg: String,
}

impl AuthError {
    /// The error in words: its message.
    pub fn to_string(&self) -> (text: String)
        ensures
            text@ == self.msg@,
    {
        self.msg.clone()
    }
}

/// What a token says of its bearer.
#[derive(Clone, Debug, PartialEq, Eq)]
pub struct Claims {
    /// The user that the token was issued to.
    pub sub: String,
    /// When it was issued, in seconds since the epoch.
    pub iat: u64,
    /// When it expires, in seconds since the epoch.
    pub exp: u64,
}

/// How long a token is good for, in seconds: half an hour.
pub const TOKEN_LIFETIME: u64 = 1800;

impl Claims {
    /// The claims of a token issued to `username` at `now`: it expires half
    /// an hour later.
    pub fn issue(username: String, now: u64) -> (claims: Claims)
        requires
            now + TOKEN_LIFETIME <= u64::MAX,
        ensures
            claims.sub == username,
            claims.iat == now,
            claims.exp == now + TOKEN_LIFETIME,
    {
        Claims { sub: username, iat: now, exp: now + TOKEN_LIFETIME }
    }
}

/// `str::strip_prefix` with a string as the prefix. Trusted: the result is
/// the rest of the text if the text begins with the prefix, and nothing
/// otherwise.
#[verifier::external_body]
fn strip_prefix<'a>(text: &'a str, prefix: &str) -> (rest: Option<&'a str>)
    ensures
        match rest {
            Some(rest) => text@ == prefix@ + rest@,
            None => !(prefix@.len() <= text@.len() && text@.subrange(0, prefix@.len() as int) == prefix@),
        },
{
    text.strip_prefix(prefix)
}

/// The token of an `Authorization` header: what follows `Bearer `. A header
/// that does not begin so is refused.
pub fn bearer_token(header: &str) -> (token: Result<&str, AuthError>)
    ensures
        match token {
            Ok(token) => header@ == "Bearer "@ + token@,
            Err(error) => {
                &&& !("Bearer "@.len() <= header@.len() && header@.subrange(0, "Bearer "@.len() as int)
                    == "Bearer "@)
                &&& error.msg@ == "Header does not start with Bearer"@
            },
        },
{
    match strip_prefix(header, "Bearer ") {
        Some(token) => Ok(token),
        None => Err(AuthError { msg: "Header does not start with Bearer".to_owned() }),
    }
}

} // verus!
