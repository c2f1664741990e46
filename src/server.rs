//! Servers: the canonical description the controller hands over, and the
//! provider's creation payload built from it.
use vstd::prelude::*;

verus! {

/// Resources granted to a server.
#[derive(Clone, Copy, Debug, PartialEq, Eq, Structural)]
pub struct Resources {
    pub memory: u32,
    pub swap: u32,
    pub cpu: u32,
    pub io: u32,
    pub disk: u32,
    pub ports: u32,
}

/// One environment entry of a deployment.
pub struct KeyValue {
    pub key: String,
    pub value: String,
}

/// What a server runs: its image and environment.
pub struct Deployment {
    pub image: String,
    pub environment: Vec<KeyValue>,
}

/// The resources and deployment a server is given.
pub struct ServerAllocation {
    pub resources: Resources,
    pub deployment: Deployment,
}

/// The canonical description of a server to create.
pub struct Server {
    pub name: String,
    pub allocation: ServerAllocation,
}

/// The provider's representation of resource limits.
#[derive(Clone, Copy, Debug, PartialEq, Eq, Structural)]
pub struct BServerLimits {
    pub memory: u32,
    pub swap: u32,
    pub disk: u32,
    pub io: u32,
    pub cpu: u32,
}

/// Limits on a server's databases, extra allocations and backups.
#[derive(Clone, Copy, Debug, PartialEq, Eq, Structural)]
pub struct BServerFeatureLimits {
    pub databases: u32,
    pub allocations: u32,
    pub backups: u32,
}

/// The allocation a created server is bound to by default.
#[derive(Clone, Copy, Debug, PartialEq, Eq, Structural)]
pub struct BCServerAllocation {
    pub default: u32,
}

/// The provider's server-creation payload.
pub struct BCServer {
    pub name: String,
    pub user: u32,
    pub egg: u32,
    pub docker_image: String,
    pub startup: String,
    pub environment: Vec<(String, String)>,
    pub limits: BServerLimits,
    pub feature_limits: BServerFeatureLimits,
    pub allocation: BCServerAllocation,
}

/// The provider's limits for the resources `r`.
pub open spec fn limits_spec(r: Resources) -> BServerLimits {
    BServerLimits { memory: r.memory, swap: r.swap, disk: r.disk, io: r.io, cpu: r.cpu }
}

/// Converts resources to the provider's limits, field for field.
pub fn limits_of(r: Resources) -> (l: BServerLimits)
    ensures
        l == limits_spec(r),
{
    BServerLimits { memory: r.memory, swap: r.swap, disk: r.disk, io: r.io, cpu: r.cpu }
}

/// The environment entries as key/value pairs, in order.
pub open spec fn env_pairs(e: Seq<KeyValue>) -> Seq<(String, String)> {
    Seq::new(e.len(), |i: int| (e[i].key, e[i].value))
}

/// The environment of `server` as the provider's key/value pairs.
pub fn environment_pairs(server: &Server) -> (r: Vec<(String, String)>)
    ensures
        r@ == env_pairs(server.allocation.deployment.environment@),
{
    let env = &server.allocation.deployment.environment;
    let mut r: Vec<(String, String)> = Vec::new();
    let mut i: usize = 0;
    while i < env.len()
        invariant
            i <= env@.len(),
            r@ == env_pairs(env@.take(i as int)),
        decreases env@.len() - i,
    {
        r.push((env[i].key.clone(), env[i].value.clone()));
        i = i + 1;
        proof {
            assert(r@ =~= env_pairs(env@.take(i as int)));
        }
    }
    proof {
        assert(env@.take(i as int) =~= env@);
    }
    r
}

} // verus!
