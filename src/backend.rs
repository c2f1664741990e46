//! The provider backend: its configuration and resolved identity, the records
//! it looks up, allocation discovery and server creation.
use vstd::prelude::*;
use crate::allocation::{acceptable, first_free, free_of, is_used, lemma_first_free_prefix, BAllocation};
use crate::pages::{
    find_in_listing, find_on_pages, flatten, lemma_flatten_split, lemma_seen_prefix,
    serves, Named, Page,
};
use crate::server::{env_pairs, environment_pairs, limits_of, limits_spec, BCServer, BCServerAllocation, BServerFeatureLimits, Server};
use vstd::string::StringExecFns;

verus! {

/// Prefix of every application endpoint of the provider.
pub const APPLICATION_ENDPOINT: &'static str = "/api/application";

/// The only status code a response is accepted with.
pub const EXPECTED_STATUS: u32 = 200;

/// A user of the provider's panel.
pub struct BUser {
    pub id: u32,
    pub username: String,
}

/// A node of the provider's panel.
pub struct BNode {
    pub id: u32,
    pub name: String,
}

/// A server as the provider records it.
pub struct BServer {
    pub id: u32,
    pub name: String,
}

impl Named for BUser {
    open spec fn name_view(&self) -> Seq<char> {
        self.username@
    }

    fn name(&self) -> (r: &String) {
        &self.username
    }
}

impl Named for BNode {
    open spec fn name_view(&self) -> Seq<char> {
        self.name@
    }

    fn name(&self) -> (r: &String) {
        &self.name
    }
}

impl Named for BServer {
    open spec fn name_view(&self) -> Seq<char> {
        self.name@
    }

    fn name(&self) -> (r: &String) {
        &self.name
    }
}

/// Identity of the configured user, resolved once against the provider.
pub struct ResolvedValues {
    pub user: u32,
}

/// A required configuration value.
#[derive(Clone, Copy, Debug, PartialEq, Eq, Structural)]
pub enum ConfigField {
    Url,
    Token,
    User,
}

impl ConfigField {
    /// The key of this value in the configuration.
    pub fn as_str(&self) -> (r: &'static str)
        ensures
            *self == ConfigField::Url ==> r@ == "url"@,
            *self == ConfigField::Token ==> r@ == "token"@,
            *self == ConfigField::User ==> r@ == "user"@,
    {
        match self {
            ConfigField::Url => "url",
            ConfigField::Token => "token",
            ConfigField::User => "user",
        }
    }
}

/// Why a backend could not be brought up.
pub enum ConfigError {
    /// These required values are absent or empty, in this order.
    Missing(Vec<ConfigField>),
    /// The configured user does not exist on the provider.
    UnknownUser(String),
}

/// The value a string option holds, as characters.
pub open spec fn opt_view(o: Option<String>) -> Option<Seq<char>> {
    match o {
        Some(s) => Some(s@),
        None => None,
    }
}

/// An environment value replaces the stored one when it is set.
pub open spec fn overlay(base: Option<Seq<char>>, env: Option<Seq<char>>) -> Option<Seq<char>> {
    if env is Some {
        env
    } else {
        base
    }
}

/// A value is missing when it is absent or empty.
pub open spec fn is_missing(v: Option<Seq<char>>) -> bool {
    v is None || v->Some_0.len() == 0
}

/// The missing values among url, token and user, in that order.
pub open spec fn missing_of(url: Option<Seq<char>>, token: Option<Seq<char>>, user: Option<Seq<char>>) -> Seq<
    ConfigField,
> {
    (if is_missing(url) {
        seq![ConfigField::Url]
    } else {
        seq![]
    }) + (if is_missing(token) {
        seq![ConfigField::Token]
    } else {
        seq![]
    }) + (if is_missing(user) {
        seq![ConfigField::User]
    } else {
        seq![]
    })
}

/// The decimal digits of `n`, most significant first.
pub open spec fn decimal(n: nat) -> Seq<char>
    decreases n,
{
    if n < 10 {
        seq![digit_char(n)]
    } else {
        decimal(n / 10).push(digit_char(n % 10))
    }
}

pub open spec fn digit_char(d: nat) -> char {
    if d < 10 {
        ((d + '0' as nat) as u32) as char
    } else {
        '?'
    }
}

/// Relies on `u32`'s `Display`: its decimal digits, without sign or padding.
#[verifier::external_body]
fn to_decimal(n: u32) -> (r: String)
    ensures
        r@ == decimal(n as nat),
{
    n.to_string()
}

fn is_missing_value(v: &Option<String>) -> (r: bool)
    ensures
        r == is_missing(opt_view(*v)),
{
    match v {
        Some(s) => s.as_str().is_empty(),
        None => true,
    }
}

fn copy_opt(v: &Option<String>) -> (r: Option<String>)
    ensures
        r == *v,
{
    match v {
        Some(s) => Some(s.clone()),
        None => None,
    }
}

/// The provider backend of one driver: where the panel is, how to
/// authenticate, which user servers are created for, and that user's id once
/// resolved.
pub struct Backend {
    url: Option<String>,
    token: Option<String>,
    user: Option<String>,
    resolved: Option<ResolvedValues>,
}

/// A response of the provider's panel, as the transport received it.
pub struct Response {
    pub status_code: u32,
    pub reason_phrase: String,
    pub bytes: Vec<u8>,
}

impl Backend {
    pub closed spec fn url_value(&self) -> Option<Seq<char>> {
        opt_view(self.url)
    }

    pub closed spec fn token_value(&self) -> Option<Seq<char>> {
        opt_view(self.token)
    }

    pub closed spec fn user_value(&self) -> Option<Seq<char>> {
        opt_view(self.user)
    }

    pub closed spec fn resolved_user(&self) -> Option<u32> {
        match self.resolved {
            Some(r) => Some(r.user),
            None => None,
        }
    }

    /// The values still missing before this backend is usable.
    pub open spec fn missing(&self) -> Seq<ConfigField> {
        missing_of(self.url_value(), self.token_value(), self.user_value())
    }

    /// A backend with every value empty and nothing resolved.
    pub fn new_empty() -> (r: Backend)
        ensures
            r.url_value() == Some(Seq::<char>::empty()),
            r.token_value() == Some(Seq::<char>::empty()),
            r.user_value() == Some(Seq::<char>::empty()),
            r.resolved_user() is None,
    {
        Backend {
            url: Some(String::new()),
            token: Some(String::new()),
            user: Some(String::new()),
            resolved: None,
        }
    }

    /// A backend with the stored values given, nothing resolved.
    pub fn new(url: Option<String>, token: Option<String>, user: Option<String>) -> (r: Backend)
        ensures
            r.url_value() == opt_view(url),
            r.token_value() == opt_view(token),
            r.user_value() == opt_view(user),
            r.resolved_user() is None,
    {
        Backend { url, token, user, resolved: None }
    }

    pub fn url(&self) -> (r: Option<String>)
        ensures
            opt_view(r) == self.url_value(),
    {
        copy_opt(&self.url)
    }

    pub fn token(&self) -> (r: Option<String>)
        ensures
            opt_view(r) == self.token_value(),
    {
        copy_opt(&self.token)
    }

    pub fn user(&self) -> (r: Option<String>)
        ensures
            opt_view(r) == self.user_value(),
    {
        copy_opt(&self.user)
    }

    pub fn resolved_user_id(&self) -> (r: Option<u32>)
        ensures
            r == self.resolved_user(),
    {
        match &self.resolved {
            Some(v) => Some(v.user),
            None => None,
        }
    }

    /// Lets each value that is set replace the stored one.
    pub fn apply_overrides(&mut self, url: Option<String>, token: Option<String>, user: Option<String>)
        ensures
            final(self).url_value() == overlay(old(self).url_value(), opt_view(url)),
            final(self).token_value() == overlay(old(self).token_value(), opt_view(token)),
            final(self).user_value() == overlay(old(self).user_value(), opt_view(user)),
            final(self).resolved_user() == old(self).resolved_user(),
    {
        if url.is_some() {
            self.url = url;
        }
        if token.is_some() {
            self.token = token;
        }
        if user.is_some() {
            self.user = user;
        }
    }

    /// The required values that are absent or empty, in the order url, token,
    /// user.
    pub fn missing_fields(&self) -> (r: Vec<ConfigField>)
        ensures
            r@ == self.missing(),
    {
        let mut r: Vec<ConfigField> = Vec::new();
        if is_missing_value(&self.url) {
            r.push(ConfigField::Url);
        }
        if is_missing_value(&self.token) {
            r.push(ConfigField::Token);
        }
        if is_missing_value(&self.user) {
            r.push(ConfigField::User);
        }
        proof {
            assert(r@ =~= self.missing());
        }
        r
    }

    /// Layers the environment values over the stored ones and checks that
    /// nothing required is missing.
    pub fn new_filled(base: Backend, url: Option<String>, token: Option<String>, user: Option<String>) -> (r:
        Result<Backend, ConfigError>)
        ensures
            ({
                let u = overlay(base.url_value(), opt_view(url));
                let t = overlay(base.token_value(), opt_view(token));
                let n = overlay(base.user_value(), opt_view(user));
                match r {
                    Ok(b) => missing_of(u, t, n).len() == 0 && b.url_value() == u && b.token_value()
                        == t && b.user_value() == n && b.resolved_user() == base.resolved_user(),
                    Err(ConfigError::Missing(m)) => missing_of(u, t, n).len() > 0 && m@ == missing_of(
                        u,
                        t,
                        n,
                    ),
                    Err(ConfigError::UnknownUser(_)) => false,
                }
            }),
    {
        let mut backend = base;
        backend.apply_overrides(url, token, user);
        let missing = backend.missing_fields();
        if missing.len() > 0 {
            return Err(ConfigError::Missing(missing));
        }
        Ok(backend)
    }

    /// Resolves the configured user's id by looking the name up over the
    /// pages of users that `fetch` hands out.
    pub fn resolve<F: Fn(u32) -> Option<Page<BUser>>>(&mut self, fetch: &F) -> (r: Result<(), ConfigError>)
        requires
            forall|p: u32| fetch.requires((p,)),
        ensures
            final(self).url_value() == old(self).url_value(),
            final(self).token_value() == old(self).token_value(),
            final(self).user_value() == old(self).user_value(),
            old(self).user_value() is None ==> (match r {
                Err(ConfigError::Missing(m)) => m@ == seq![ConfigField::User],
                _ => false,
            }) && final(self).resolved_user() == old(self).resolved_user(),
            old(self).user_value() is Some ==> (match r {
                Ok(()) => exists|u: BUser|
                    u.username@ == old(self).user_value()->Some_0 && final(self).resolved_user() == Some(
                        u.id,
                    ) && forall|listing: Seq<Seq<BUser>>|
                        listing.len() >= 1 && #[trigger] serves(*fetch, listing) ==> find_in_listing(
                            listing,
                            old(self).user_value()->Some_0,
                        ) == Some(u),
                Err(ConfigError::UnknownUser(name)) => name@ == old(self).user_value()->Some_0
                    && final(self).resolved_user() == old(self).resolved_user() && forall|
                    listing: Seq<Seq<BUser>>,
                |
                    listing.len() >= 1 && #[trigger] serves(*fetch, listing) ==> find_in_listing(
                        listing,
                        old(self).user_value()->Some_0,
                    ) is None,
                Err(ConfigError::Missing(_)) => false,
            }),
    {
        match ResolvedValues::new_resolved(self, fetch) {
            Ok(resolved) => {
                self.resolved = Some(resolved);
                Ok(())
            },
            Err(e) => Err(e),
        }
    }

    /// Layers the environment values over the stored ones, checks them, and
    /// resolves the configured user over the pages that `fetch` hands out.
    pub fn new_filled_and_resolved<F: Fn(u32) -> Option<Page<BUser>>>(
        base: Backend,
        url: Option<String>,
        token: Option<String>,
        user: Option<String>,
        fetch: &F,
    ) -> (r: Result<Backend, ConfigError>)
        requires
            forall|p: u32| fetch.requires((p,)),
        ensures
            ({
                let u = overlay(base.url_value(), opt_view(url));
                let t = overlay(base.token_value(), opt_view(token));
                let n = overlay(base.user_value(), opt_view(user));
                match r {
                    Ok(b) => missing_of(u, t, n).len() == 0 && b.url_value() == u && b.token_value()
                        == t && b.user_value() == n && exists|x: BUser|
                        x.username@ == n->Some_0 && b.resolved_user() == Some(x.id) && forall|
                            listing: Seq<Seq<BUser>>,
                        |
                            listing.len() >= 1 && #[trigger] serves(*fetch, listing) ==> find_in_listing(
                                listing,
                                n->Some_0,
                            ) == Some(x),
                    Err(ConfigError::Missing(m)) => missing_of(u, t, n).len() > 0 && m@ == missing_of(
                        u,
                        t,
                        n,
                    ),
                    Err(ConfigError::UnknownUser(name)) => missing_of(u, t, n).len() == 0 && name@
                        == n->Some_0 && forall|listing: Seq<Seq<BUser>>|
                        listing.len() >= 1 && #[trigger] serves(*fetch, listing) ==> find_in_listing(
                            listing,
                            n->Some_0,
                        ) is None,
                }
            }),
    {
        let mut backend = match Backend::new_filled(base, url, token, user) {
            Ok(b) => b,
            Err(e) => return Err(e),
        };
        match backend.resolve(fetch) {
            Ok(()) => Ok(backend),
            Err(e) => Err(e),
        }
    }

    /// The creation payload for `server` on `allocation`, owned by the
    /// resolved user; nothing while the user is unresolved.
    pub open spec fn is_payload(
        &self,
        p: BCServer,
        server: &Server,
        allocation: &BAllocation,
        egg: u32,
        startup: Seq<char>,
        features: BServerFeatureLimits,
    ) -> bool {
        &&& self.resolved_user() == Some(p.user)
        &&& p.name == server.name
        &&& p.egg == egg
        &&& p.docker_image == server.allocation.deployment.image
        &&& p.startup@ == startup
        &&& p.environment@ == env_pairs(server.allocation.deployment.environment@)
        &&& p.limits == limits_spec(server.allocation.resources)
        &&& p.feature_limits == features
        &&& p.allocation == (BCServerAllocation { default: allocation.id })
    }

    /// Builds the provider's creation payload; nothing while the configured
    /// user is unresolved.
    pub fn creation_payload(
        &self,
        server: &Server,
        allocation: &BAllocation,
        egg: u32,
        startup: &str,
        features: BServerFeatureLimits,
    ) -> (r: Option<BCServer>)
        ensures
            r is None <==> self.resolved_user() is None,
            r is Some ==> self.is_payload(r->Some_0, server, allocation, egg, startup@, features),
    {
        let user = match &self.resolved {
            Some(v) => v.user,
            None => return None,
        };
        Some(
            BCServer {
                name: server.name.clone(),
                user,
                egg,
                docker_image: server.allocation.deployment.image.clone(),
                startup: startup.to_owned(),
                environment: environment_pairs(server),
                limits: limits_of(server.allocation.resources),
                feature_limits: features,
                allocation: BCServerAllocation { default: allocation.id },
            },
        )
    }

    /// Creates `server` on `allocation`: builds the creation payload and hands
    /// it to `post`, which submits it. Nothing while the configured user is
    /// unresolved, and nothing when `post` brings nothing back.
    pub fn create_server<F: Fn(&BCServer) -> Option<BServer>>(
        &self,
        server: &Server,
        allocation: &BAllocation,
        egg: u32,
        startup: &str,
        features: BServerFeatureLimits,
        post: &F,
    ) -> (r: Option<BServer>)
        requires
            forall|p: &BCServer| post.requires((p,)),
        ensures
            self.resolved_user() is None ==> r is None,
            self.resolved_user() is Some ==> exists|p: BCServer|
                self.is_payload(p, server, allocation, egg, startup@, features) && post.ensures(
                    (&p,),
                    r,
                ),
    {
        match self.creation_payload(server, allocation, egg, startup, features) {
            None => None,
            Some(payload) => {
                let r = post(&payload);
                proof {
                    assert(post.ensures((&payload,), r));
                }
                r
            },
        }
    }

    /// Looks a user up by name over the pages that `fetch` hands out.
    pub fn get_user_by_name<F: Fn(u32) -> Option<Page<BUser>>>(username: &str, fetch: &F) -> (r: Option<
        BUser,
    >)
        requires
            forall|p: u32| fetch.requires((p,)),
        ensures
            r is Some ==> r->Some_0.username@ == username@,
            forall|listing: Seq<Seq<BUser>>|
                listing.len() >= 1 && #[trigger] serves(*fetch, listing) ==> r == find_in_listing(
                    listing,
                    username@,
                ),
    {
        find_on_pages(fetch, username).0
    }

    /// Looks a node up by name over the pages that `fetch` hands out.
    pub fn get_node_by_name<F: Fn(u32) -> Option<Page<BNode>>>(name: &str, fetch: &F) -> (r: Option<BNode>)
        requires
            forall|p: u32| fetch.requires((p,)),
        ensures
            r is Some ==> r->Some_0.name@ == name@,
            forall|listing: Seq<Seq<BNode>>|
                listing.len() >= 1 && #[trigger] serves(*fetch, listing) ==> r == find_in_listing(
                    listing,
                    name@,
                ),
    {
        find_on_pages(fetch, name).0
    }

    /// Looks a server up by name over the pages that `fetch` hands out.
    pub fn get_server_by_name<F: Fn(u32) -> Option<Page<BServer>>>(name: &str, fetch: &F) -> (r: Option<
        BServer,
    >)
        requires
            forall|p: u32| fetch.requires((p,)),
        ensures
            r is Some ==> r->Some_0.name@ == name@,
            forall|listing: Seq<Seq<BServer>>|
                listing.len() >= 1 && #[trigger] serves(*fetch, listing) ==> r == find_in_listing(
                    listing,
                    name@,
                ),
    {
        find_on_pages(fetch, name).0
    }

    /// The address of `target` under the application endpoint; nothing while
    /// the url is unset.
    pub fn endpoint_url(&self, target: &str) -> (r: Option<String>)
        ensures
            r is None <==> self.url_value() is None,
            r is Some ==> r->Some_0@ == self.url_value()->Some_0 + APPLICATION_ENDPOINT@ + "/"@
                + target@,
    {
        match &self.url {
            None => None,
            Some(url) => Some(url.clone().concat(APPLICATION_ENDPOINT).concat("/").concat(target)),
        }
    }

    /// The address of page `page` of the listing `target`.
    pub fn list_url(&self, target: &str, page: u32) -> (r: Option<String>)
        ensures
            r is None <==> self.url_value() is None,
            r is Some ==> r->Some_0@ == self.url_value()->Some_0 + APPLICATION_ENDPOINT@ + "/"@
                + target@ + "?page="@ + decimal(page as nat),
    {
        match self.endpoint_url(target) {
            None => None,
            Some(url) => {
                let number = to_decimal(page);
                Some(url.concat("?page=").concat(number.as_str()))
            },
        }
    }

    /// The value of the `Authorization` header: the token as a bearer
    /// credential; nothing while the token is unset.
    pub fn authorization(&self) -> (r: Option<String>)
        ensures
            r is None <==> self.token_value() is None,
            r is Some ==> r->Some_0@ == "Bearer "@ + self.token_value()->Some_0,
    {
        match &self.token {
            None => None,
            Some(token) => Some(String::from_str("Bearer ").concat(token.as_str())),
        }
    }

    /// The listing of the allocations of node `node_id`.
    pub fn allocations_target(node_id: u32) -> (r: String)
        ensures
            r@ == "nodes/"@ + decimal(node_id as nat) + "/allocations"@,
    {
        let number = to_decimal(node_id);
        String::from_str("nodes/").concat(number.as_str()).concat("/allocations")
    }

    /// The body of `response` when it came with the status `expected_code`;
    /// nothing when there was no response or it came with another status.
    pub fn handle_response(response: Option<Response>, expected_code: u32) -> (r: Option<Vec<u8>>)
        ensures
            r is Some <==> (response is Some && response->Some_0.status_code == expected_code),
            r is Some ==> r->Some_0@ == response->Some_0.bytes@,
    {
        match response {
            None => None,
            Some(resp) => {
                if resp.status_code != expected_code {
                    None
                } else {
                    Some(resp.bytes)
                }
            },
        }
    }

/// Hands out at most `amount` allocations that the provider has not assigned
/// and that no allocation of `used` sits on, walking the pages that `fetch`
/// hands out from page 1 on. Stops fetching as soon as `amount` are found, at
/// the last page, or at the first page that could not be fetched.
pub fn get_free_allocations<F: Fn(u32) -> Option<Page<BAllocation>>>(
    used: &[BAllocation],
    amount: u32,
    fetch: &F,
) -> (r: Vec<BAllocation>)
    requires
        forall|p: u32| fetch.requires((p,)),
    ensures
        r@.len() <= amount,
        forall|i: int| 0 <= i < r@.len() ==> acceptable(#[trigger] r@[i], used@),
        forall|listing: Seq<Seq<BAllocation>>|
            listing.len() >= 1 && #[trigger] serves(*fetch, listing) ==> r@ == first_free(
                flatten(listing),
                used@,
                amount as nat,
            ),
{
    let mut acc: Vec<BAllocation> = Vec::new();
    if amount == 0 {
        proof {
            assert forall|listing: Seq<Seq<BAllocation>>|
                listing.len() >= 1 && #[trigger] serves(*fetch, listing) implies acc@ == first_free(
                flatten(listing),
                used@,
                0,
            ) by {
                assert(first_free(flatten(listing), used@, 0) =~= acc@);
            }
        }
        return acc;
    }
    let mut page: u32 = 1;
    let ghost mut seen: Seq<Page<BAllocation>> = seq![];
    let ghost mut seen_data: Seq<Seq<BAllocation>> = seq![];
    loop
        invariant
            forall|p: u32| fetch.requires((p,)),
            0 < amount,
            page == seen.len() + 1,
            seen_data.len() == seen.len(),
            forall|i: int|
                0 <= i < seen.len() ==> fetch.ensures(((i + 1) as u32,), Some(#[trigger] seen[i])),
            forall|i: int| 0 <= i < seen.len() ==> (#[trigger] seen[i]).total_pages > i + 1,
            forall|i: int| 0 <= i < seen.len() ==> seen_data[i] == (#[trigger] seen[i]).data@,
            acc@ == free_of(flatten(seen_data), used@),
            acc@.len() < amount,
            forall|i: int| 0 <= i < acc@.len() ==> acceptable(#[trigger] acc@[i], used@),
        decreases u32::MAX - page,
    {
        let fetched = fetch(page);
        proof {
            assert forall|listing: Seq<Seq<BAllocation>>|
                listing.len() >= 1 && #[trigger] serves(*fetch, listing) implies page <= listing.len()
                    && listing.take(seen.len() as int) == seen_data by {
                lemma_seen_prefix(*fetch, listing, seen, seen.len() as int);
                if seen.len() > 0 {
                    assert(listing[seen.len() - 1] == seen[seen.len() - 1].data@);
                    assert(listing.len() > seen.len() - 1 + 1);
                }
                assert forall|i: int| 0 <= i < seen.len() implies listing.take(seen.len() as int)[i]
                    == seen_data[i] by {
                    assert(listing[i] == seen[i].data@);
                }
                assert(listing.take(seen.len() as int) =~= seen_data);
            }
        }
        match fetched {
            None => {
                proof {
                    assert forall|listing: Seq<Seq<BAllocation>>|
                        listing.len() >= 1 && #[trigger] serves(*fetch, listing) implies false by {
                        assert(fetch.ensures((page,), fetched));
                    }
                }
                return acc;
            },
            Some(pg) => {
                proof {
                    assert forall|listing: Seq<Seq<BAllocation>>|
                        listing.len() >= 1 && #[trigger] serves(*fetch, listing) implies listing[seen.len() as int]
                            == pg.data@ && pg.total_pages == listing.len() by {
                        assert(fetch.ensures((page,), Some(pg)));
                    }
                }
                let n = pg.data.len();
                let mut i: usize = 0;
                while i < n
                    invariant
                        0 < amount,
                        page == seen.len() + 1,
                        n == pg.data@.len(),
                        i <= n,
                        forall|listing: Seq<Seq<BAllocation>>|
                            listing.len() >= 1 && #[trigger] serves(*fetch, listing) ==> page
                                <= listing.len() && listing.take(seen.len() as int) == seen_data
                                && listing[seen.len() as int] == pg.data@ && pg.total_pages
                                == listing.len(),
                        acc@ == free_of(flatten(seen_data) + pg.data@.take(i as int), used@),
                        acc@.len() < amount,
                        forall|k: int| 0 <= k < acc@.len() ==> acceptable(#[trigger] acc@[k], used@),
                    decreases n - i,
                {
                    let a = &pg.data[i];
                    let ghost before = flatten(seen_data) + pg.data@.take(i as int);
                    let ghost after = flatten(seen_data) + pg.data@.take(i + 1);
                    proof {
                        assert(after.drop_last() =~= before);
                        assert(after.last() == pg.data@[i as int]);
                    }
                    if !a.assigned && !is_used(used, a) {
                        acc.push(a.duplicate());
                        if acc.len() >= amount as usize {
                            proof {
                                assert forall|listing: Seq<Seq<BAllocation>>|
                                    listing.len() >= 1 && #[trigger] serves(*fetch, listing) implies acc@
                                        == first_free(flatten(listing), used@, amount as nat) by {
                                    let k = seen.len() as int;
                                    lemma_flatten_split(listing, k);
                                    let d = pg.data@;
                                    let tail = d.skip(i + 1) + flatten(listing.skip(k + 1));
                                    assert(flatten(listing) =~= after + tail);
                                    lemma_first_free_prefix(after, tail, used@, amount as nat);
                                }
                            }
                            return acc;
                        }
                    }
                    i = i + 1;
                }
                proof {
                    assert(pg.data@.take(n as int) =~= pg.data@);
                }
                if pg.total_pages <= page {
                    proof {
                        assert forall|listing: Seq<Seq<BAllocation>>|
                            listing.len() >= 1 && #[trigger] serves(*fetch, listing) implies acc@
                                == first_free(flatten(listing), used@, amount as nat) by {
                            let k = seen.len() as int;
                            lemma_flatten_split(listing, k);
                            assert(listing.skip(k + 1).len() == 0);
                            assert(flatten(listing) =~= flatten(seen_data) + pg.data@);
                        }
                    }
                    return acc;
                }
                proof {
                    let old_data = seen_data;
                    seen = seen.push(pg);
                    seen_data = seen_data.push(pg.data@);
                    assert(seen_data.drop_last() =~= old_data);
                    assert(seen[seen.len() - 1] == pg);
                }
                page = page + 1;
            },
        }
    }
}

} // impl Backend

impl ResolvedValues {
    /// Looks the backend's configured user up over the pages of users that
    /// `fetch` hands out, and keeps its id.
    pub fn new_resolved<F: Fn(u32) -> Option<Page<BUser>>>(backend: &Backend, fetch: &F) -> (r: Result<
        ResolvedValues,
        ConfigError,
    >)
        requires
            forall|p: u32| fetch.requires((p,)),
        ensures
            backend.user_value() is None ==> (match r {
                Err(ConfigError::Missing(m)) => m@ == seq![ConfigField::User],
                _ => false,
            }),
            backend.user_value() is Some ==> (match r {
                Ok(v) => exists|u: BUser|
                    u.username@ == backend.user_value()->Some_0 && v.user == u.id && forall|
                        listing: Seq<Seq<BUser>>,
                    |
                        listing.len() >= 1 && #[trigger] serves(*fetch, listing) ==> find_in_listing(
                            listing,
                            backend.user_value()->Some_0,
                        ) == Some(u),
                Err(ConfigError::UnknownUser(name)) => name@ == backend.user_value()->Some_0 && forall|
                    listing: Seq<Seq<BUser>>,
                |
                    listing.len() >= 1 && #[trigger] serves(*fetch, listing) ==> find_in_listing(
                        listing,
                        backend.user_value()->Some_0,
                    ) is None,
                Err(ConfigError::Missing(_)) => false,
            }),
    {
        match &backend.user {
            None => Err(ConfigError::Missing(vec![ConfigField::User])),
            Some(name) => {
                let (found, _) = find_on_pages::<BUser, F>(fetch, name.as_str());
                match found {
                    Some(u) => Ok(ResolvedValues { user: u.id }),
                    None => Err(ConfigError::UnknownUser(name.clone())),
                }
            },
        }
    }
}

} // verus!
