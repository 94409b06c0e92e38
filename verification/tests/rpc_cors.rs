use kora::rpc::config::{Allowed, CorsConfig, RpcServerConfig};

fn list(a: &Allowed) -> Option<Vec<String>> {
    match a {
        Allowed::Any => None,
        Allowed::List(v) => Some(v.clone()),
    }
}

#[test]
fn cors_layer_empty_origins() {
    let config = CorsConfig::none();
    assert!(config.cors_plan().is_none());
}

#[test]
fn cors_layer_specific_origins() {
    let config = CorsConfig {
        allowed_origins: vec!["http://localhost:3000".to_string()],
        allowed_methods: vec!["GET".to_string(), "POST".to_string()],
        allowed_headers: vec!["Content-Type".to_string()],
        max_age: 3600,
    };
    let plan = config.cors_plan().unwrap();
    assert_eq!(list(&plan.origins), Some(vec!["http://localhost:3000".to_string()]));
    assert_eq!(list(&plan.methods), Some(vec!["GET".to_string(), "POST".to_string()]));
    assert_eq!(list(&plan.headers), Some(vec!["Content-Type".to_string()]));
    assert_eq!(plan.max_age, 3600);
}

#[test]
fn cors_layer_wildcard() {
    let config = CorsConfig::permissive();
    let plan = config.cors_plan().unwrap();
    assert!(matches!(plan.origins, Allowed::Any));
    assert_eq!(list(&plan.methods).map(|v| v.len()), Some(5));
    assert!(matches!(plan.headers, Allowed::Any));
    assert_eq!(plan.max_age, 86400);
}

#[test]
fn wildcard_among_origins_is_listed_literally() {
    let config = CorsConfig {
        allowed_origins: vec!["*".to_string(), "http://a".to_string()],
        allowed_methods: vec!["GET".to_string(), "*".to_string()],
        allowed_headers: vec![],
        max_age: 1,
    };
    let plan = config.cors_plan().unwrap();
    assert_eq!(list(&plan.origins), Some(vec!["*".to_string(), "http://a".to_string()]));
    assert!(matches!(plan.methods, Allowed::Any));
    assert_eq!(list(&plan.headers), Some(vec![]));
}

#[test]
fn rpc_server_config_defaults() {
    let c = RpcServerConfig::default();
    assert_eq!(c.http_addr, "127.0.0.1:8545");
    assert_eq!(c.jsonrpc_addr, "127.0.0.1:8545");
    assert_eq!(c.chain_id, 1);
    assert_eq!(c.cors.allowed_origins, vec!["http://localhost:3000".to_string()]);
    assert_eq!(c.rate_limit.requests_per_second, 100);
    assert_eq!(c.rate_limit.burst_size, 200);
    assert_eq!(c.max_connections, 100);
}

#[test]
fn rpc_server_config_builders() {
    let c = RpcServerConfig::single_addr("0.0.0.0:9000".to_string(), 1337)
        .with_cors_origins(vec!["https://a.example".to_string(), "https://b.example".to_string()])
        .with_rate_limit(5)
        .with_max_connections(7);
    assert_eq!(c.http_addr, "0.0.0.0:9000");
    assert_eq!(c.jsonrpc_addr, "0.0.0.0:9000");
    assert_eq!(c.chain_id, 1337);
    assert_eq!(c.cors.allowed_origins.len(), 2);
    assert_eq!(c.cors.allowed_methods, vec!["GET".to_string(), "POST".to_string(), "OPTIONS".to_string()]);
    assert_eq!(c.rate_limit.requests_per_second, 5);
    assert_eq!(c.rate_limit.burst_size, 200);
    assert_eq!(c.max_connections, 7);
    let split = RpcServerConfig::new("127.0.0.1:1".to_string(), "127.0.0.1:2".to_string(), 3);
    assert_eq!((split.http_addr.as_str(), split.jsonrpc_addr.as_str()), ("127.0.0.1:1", "127.0.0.1:2"));
}
