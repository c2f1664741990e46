//! The authorization capsule: who performs an operation, and what it may do.
use vstd::prelude::*;

verus! {

/// The identity kinds a capsule can hold.
#[derive(Clone, Copy, Debug, PartialEq, Eq, Structural)]
pub enum AuthType {
    User,
    Server,
}

/// An administrator, known by username.
pub struct AdminUser {
    username: String,
}

/// A server acting on its own behalf, known by the name of its record.
pub struct AuthServer {
    server: String,
}

/// An owned capsule: exactly one identity kind.
pub enum Authorization {
    User(AdminUser),
    Server(AuthServer),
}

/// Capsules are handed around owned; this is the name callers hold them by.
pub type OwnedAuthorization = Authorization;

impl AdminUser {
    pub closed spec fn username_view(&self) -> Seq<char> {
        self.username@
    }

    /// Builds the capsule of the administrator `username`.
    pub fn create(username: String) -> (r: OwnedAuthorization)
        ensures
            r is User,
            r->User_0.username_view() == username@,
    {
        Authorization::User(AdminUser { username })
    }

    pub fn username(&self) -> (r: &String)
        ensures
            r@ == self.username_view(),
    {
        &self.username
    }

    /// An administrator may do everything.
    pub fn is_allowed(&self, _flag: u32) -> (r: bool)
        ensures
            r,
    {
        true
    }

    pub fn get_user(&self) -> (r: Option<&AdminUser>)
        ensures
            r == Some(self),
    {
        Some(self)
    }

    pub fn get_server(&self) -> (r: Option<&AuthServer>)
        ensures
            r is None,
    {
        None
    }

    pub fn is_type(&self, auth: AuthType) -> (r: bool)
        ensures
            r == (auth == AuthType::User),
    {
        auth == AuthType::User
    }

    /// Rebuilds the capsule from the username alone.
    pub fn recreate(&self) -> (r: OwnedAuthorization)
        ensures
            r is User,
            r->User_0.username_view() == self.username_view(),
    {
        AdminUser::create(self.username.clone())
    }
}

impl AuthServer {
    pub closed spec fn server_view(&self) -> Seq<char> {
        self.server@
    }

    /// Builds the capsule of the server whose record is named `server`.
    pub fn create(server: String) -> (r: OwnedAuthorization)
        ensures
            r is Server,
            r->Server_0.server_view() == server@,
    {
        Authorization::Server(AuthServer { server })
    }

    pub fn server(&self) -> (r: &String)
        ensures
            r@ == self.server_view(),
    {
        &self.server
    }

    /// A server identity holds no administrative capability.
    pub fn is_allowed(&self, _flag: u32) -> (r: bool)
        ensures
            !r,
    {
        false
    }

    pub fn recreate(&self) -> (r: OwnedAuthorization)
        ensures
            r is Server,
            r->Server_0.server_view() == self.server_view(),
    {
        AuthServer::create(self.server.clone())
    }
}

impl Authorization {
    /// The variant tag of this capsule.
    pub open spec fn kind(&self) -> AuthType {
        match self {
            Authorization::User(_) => AuthType::User,
            Authorization::Server(_) => AuthType::Server,
        }
    }

    /// The capability policy: a pure function of the variant and the flag.
    pub open spec fn allows(&self, flag: u32) -> bool {
        match self {
            Authorization::User(_) => true,
            Authorization::Server(_) => false,
        }
    }

    /// The durable identity the capsule was built from.
    pub open spec fn identity(&self) -> Seq<char> {
        match self {
            Authorization::User(u) => u.username_view(),
            Authorization::Server(s) => s.server_view(),
        }
    }

    pub fn is_allowed(&self, flag: u32) -> (r: bool)
        ensures
            r == self.allows(flag),
    {
        match self {
            Authorization::User(u) => u.is_allowed(flag),
            Authorization::Server(s) => s.is_allowed(flag),
        }
    }

    pub fn get_user(&self) -> (r: Option<&AdminUser>)
        ensures
            r is Some <==> self is User,
            self is User ==> r == Some(&self->User_0),
    {
        match self {
            Authorization::User(u) => Some(u),
            Authorization::Server(_) => None,
        }
    }

    pub fn get_server(&self) -> (r: Option<&AuthServer>)
        ensures
            r is Some <==> self is Server,
            self is Server ==> r == Some(&self->Server_0),
    {
        match self {
            Authorization::User(_) => None,
            Authorization::Server(s) => Some(s),
        }
    }

    pub fn is_type(&self, auth: AuthType) -> (r: bool)
        ensures
            r == (self.kind() == auth),
    {
        match self {
            Authorization::User(u) => u.is_type(auth),
            Authorization::Server(_) => auth == AuthType::Server,
        }
    }

    /// Rebuilds an equivalent capsule from its durable identity.
    pub fn recreate(&self) -> (r: OwnedAuthorization)
        ensures
            r.kind() == self.kind(),
            r.identity() == self.identity(),
    {
        match self {
            Authorization::User(u) => u.recreate(),
            Authorization::Server(s) => s.recreate(),
        }
    }
}

/// Exactly one of the two identity accessors yields a value, for every capsule.
pub proof fn lemma_one_identity(
    a: Authorization,
    u: Option<&AdminUser>,
    s: Option<&AuthServer>,
)
    requires
        call_ensures(Authorization::get_user, (&a,), u),
        call_ensures(Authorization::get_server, (&a,), s),
    ensures
        (u is Some) != (s is Some),
{
}

/// An administrator capsule allows every flag and has no server identity.
pub proof fn lemma_admin_allows_all(
    a: Authorization,
    flag: u32,
    allowed: bool,
    s: Option<&AuthServer>,
)
    requires
        a.kind() == AuthType::User,
        call_ensures(Authorization::is_allowed, (&a, flag), allowed),
        call_ensures(Authorization::get_server, (&a,), s),
    ensures
        allowed,
        s is None,
{
}

/// A rebuilt capsule has the same variant and answers every capability check
/// as the original does.
pub proof fn lemma_recreate_equivalent(
    a: Authorization,
    r: Authorization,
    flag: u32,
    kind: AuthType,
    allowed_a: bool,
    allowed_r: bool,
    type_a: bool,
    type_r: bool,
)
    requires
        call_ensures(Authorization::recreate, (&a,), r),
        call_ensures(Authorization::is_allowed, (&a, flag), allowed_a),
        call_ensures(Authorization::is_allowed, (&r, flag), allowed_r),
        call_ensures(Authorization::is_type, (&a, kind), type_a),
        call_ensures(Authorization::is_type, (&r, kind), type_r),
    ensures
        allowed_a == allowed_r,
        type_a == type_r,
{
}

} // verus!
