use balancer::config::{
    bind_address, has_feature, monitor_plan, Features, LoadBalancerConfig, Protocol, ServerConfig,
    ServerListener,
};

#[test]
fn feature_labels() {
    assert_eq!(Features::HealthCheck.to_string(), "Health Check");
    assert_eq!(Features::ApiHealthCheck.to_string(), "Api Health Check");
}

#[test]
fn protocol_labels() {
    assert_eq!(Protocol::RobinRound.to_string(), "Robin Round");
    assert_eq!(Protocol::LeastConnections.to_string(), "Least Connections");
    assert_eq!(Protocol::LeastResponse.to_string(), "Leas tResponse");
}

#[test]
fn listener_labels() {
    assert_eq!(ServerListener::HealthCheckListener.to_string(), "Health Check Listener");
    assert_eq!(
        ServerListener::ApiHealthCheckListener.to_string(),
        "Api Health Check Listener"
    );
}

#[test]
fn default_protocol_is_round_robin() {
    assert_eq!(Protocol::default(), Protocol::RobinRound);
}

#[test]
fn default_configs_are_empty() {
    let lb = LoadBalancerConfig::default();
    assert_eq!(lb.ip, "");
    assert_eq!(lb.protocol, Protocol::RobinRound);
    assert!(lb.features.is_empty());
    assert!(lb.nodes.is_empty());

    let server = ServerConfig::default();
    assert_eq!(server.ip, "");
    assert!(server.listener.is_empty());
    assert!(server.loadbalancer_ip.is_empty());
}

#[test]
fn has_feature_looks_the_feature_up() {
    let features = vec![Features::HealthCheck];
    assert!(has_feature(&features, Features::HealthCheck));
    assert!(!has_feature(&features, Features::ApiHealthCheck));
    assert!(!has_feature(&Vec::new(), Features::HealthCheck));
}

#[test]
fn monitor_plan_gates_on_features() {
    let plan = monitor_plan(&vec![Features::ApiHealthCheck]);
    assert!(plan.connections);
    assert!(!plan.health);
    assert!(plan.api);

    let plan = monitor_plan(&Vec::new());
    assert!(plan.connections);
    assert!(!plan.health);
    assert!(!plan.api);

    let plan = monitor_plan(&vec![Features::HealthCheck, Features::ApiHealthCheck]);
    assert!(plan.connections && plan.health && plan.api);
}

#[test]
fn bind_address_appends_the_serving_port() {
    assert_eq!(bind_address("10.1.2.3"), "10.1.2.3:3000");
}
