//! Configuration values the load balancer and the node agent are
//! started with, and the boot-time decisions taken from them.

use vstd::prelude::*;

verus! {

/// Optional monitoring features of the load balancer.
#[derive(Debug, Clone, PartialEq, Eq, Structural)]
pub enum Features {
    HealthCheck,
    ApiHealthCheck,
}

/// Backend selection policies.  Only round-robin is realized; the
/// other two are configuration placeholders.
#[derive(Debug, Clone, PartialEq, Eq, Structural)]
pub enum Protocol {
    RobinRound,
    LeastConnections,
    LeastResponse,
}

/// Configuration of the load-balancer process: its own address, the
/// selection policy, the enabled features and the backend addresses.
#[derive(Debug, Clone)]
pub struct LoadBalancerConfig {
    pub ip: String,
    pub protocol: Protocol,
    pub features: Vec<Features>,
    pub nodes: Vec<String>,
}

/// Request kinds a node agent answers.
#[derive(Debug, Clone, PartialEq, Eq, Structural)]
pub enum ServerListener {
    HealthCheckListener,
    ApiHealthCheckListener,
}

/// Configuration of a node agent: its own address, what it listens
/// for, and the load balancers it serves.
#[derive(Debug, Clone)]
pub struct ServerConfig {
    pub ip: String,
    pub listener: Vec<ServerListener>,
    pub loadbalancer_ip: Vec<String>,
}

impl Features {
    /// Human-readable label of the feature.
    pub fn to_string(&self) -> (r: String)
        ensures
            self is HealthCheck ==> r@ == "Health Check"@,
            self is ApiHealthCheck ==> r@ == "Api Health Check"@,
    {
        match self {
            Features::HealthCheck => "Health Check".to_owned(),
            Features::ApiHealthCheck => "Api Health Check".to_owned(),
        }
    }
}

impl Protocol {
    /// Human-readable label of the policy.
    pub fn to_string(&self) -> (r: String)
        ensures
            self is RobinRound ==> r@ == "Robin Round"@,
            self is LeastConnections ==> r@ == "Least Connections"@,
            self is LeastResponse ==> r@ == "Leas tResponse"@,
    {
        match self {
            Protocol::RobinRound => "Robin Round".to_owned(),
            Protocol::LeastConnections => "Least Connections".to_owned(),
            Protocol::LeastResponse => "Leas tResponse".to_owned(),
        }
    }
}

impl ServerListener {
    /// Human-readable label of the listener kind.
    pub fn to_string(&self) -> (r: String)
        ensures
            self is HealthCheckListener ==> r@ == "Health Check Listener"@,
            self is ApiHealthCheckListener ==> r@ == "Api Health Check Listener"@,
    {
        match self {
            ServerListener::HealthCheckListener => "Health Check Listener".to_owned(),
            ServerListener::ApiHealthCheckListener => "Api Health Check Listener".to_owned(),
        }
    }
}

impl Default for LoadBalancerConfig {
    /// The configuration used before the wizard has run: no
    /// addresses, no features, round-robin.
    fn default() -> (r: LoadBalancerConfig)
        ensures
            r.ip@ == Seq::<char>::empty(),
            r.protocol == Protocol::RobinRound,
            r.features@ == Seq::<Features>::empty(),
            r.nodes@ == Seq::<String>::empty(),
    {
        LoadBalancerConfig {
            ip: String::new(),
            protocol: Protocol::RobinRound,
            features: Vec::new(),
            nodes: Vec::new(),
        }
    }
}

impl Default for ServerConfig {
    /// The agent configuration used before the wizard has run.
    fn default() -> (r: ServerConfig)
        ensures
            r.ip@ == Seq::<char>::empty(),
            r.listener@ == Seq::<ServerListener>::empty(),
            r.loadbalancer_ip@ == Seq::<String>::empty(),
    {
        ServerConfig { ip: String::new(), listener: Vec::new(), loadbalancer_ip: Vec::new() }
    }
}

impl Default for Protocol {
    /// The policy used when none is configured.
    fn default() -> (r: Protocol)
        ensures
            r == Protocol::RobinRound,
    {
        Protocol::RobinRound
    }
}

/// Whether a feature is among the enabled ones.
pub fn has_feature(features: &Vec<Features>, feature: Features) -> (r: bool)
    ensures
        r == features@.contains(feature),
{
    let mut i: usize = 0;
    while i < features.len()
        invariant
            i <= features@.len(),
            forall|j: int| 0 <= j < i ==> features@[j] != feature,
        decreases features@.len() - i,
    {
        if features[i] == feature {
            assert(features@.contains(feature));
            return true;
        }
        i += 1;
    }
    false
}

/// The address the proxy server binds: the configured IP on the
/// serving port.
pub fn bind_address(ip: &str) -> (r: String)
    ensures
        r@ == ip@ + ":3000"@,
{
    let mut s = ip.to_owned();
    s.append(":3000");
    s
}

/// Which background monitors the proxy server starts at boot.
#[derive(Debug, Clone, PartialEq, Eq, Structural)]
pub struct MonitorPlan {
    pub connections: bool,
    pub health: bool,
    pub api: bool,
}

/// Decides the monitors to spawn: the connection monitor always runs;
/// backend health polling and API probing run only when their feature
/// is enabled.
pub fn monitor_plan(features: &Vec<Features>) -> (r: MonitorPlan)
    ensures
        r.connections,
        r.health == features@.contains(Features::HealthCheck),
        r.api == features@.contains(Features::ApiHealthCheck),
{
    MonitorPlan {
        connections: true,
        health: has_feature(features, Features::HealthCheck),
        api: has_feature(features, Features::ApiHealthCheck),
    }
}

} // verus!
