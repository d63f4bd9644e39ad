use locho::config::{
    is_safe_service_name, Config, ConfigError, ServiceConfig, ServiceProblem, ServiceType,
};
use locho::net::{IpAddress, SocketAddress};
use locho::upstream::UpstreamUrl;

fn http(name: &str) -> ServiceConfig {
    ServiceConfig {
        name: name.into(),
        service_type: ServiceType::Http,
        upstream: Some(UpstreamUrl::parse("https://example.com").unwrap()),
        endpoint: None,
        ca_cert: None,
    }
}

fn tcp(name: &str, port: u16) -> ServiceConfig {
    ServiceConfig {
        name: name.into(),
        service_type: ServiceType::Tcp,
        upstream: None,
        endpoint: Some(SocketAddress::new(IpAddress::V4([127, 0, 0, 1]), port)),
        ca_cert: None,
    }
}

fn problem_of(services: Vec<ServiceConfig>) -> ConfigError {
    Config { services }.validate().unwrap_err()
}

#[test]
fn accepts_multiple_service_types() {
    let config = Config { services: vec![http("api"), tcp("database", 5432)] };
    assert!(config.validate().is_ok());
}

#[test]
fn rejects_duplicate_and_unsafe_names() {
    let mut config = Config { services: vec![http("api"), http("api")] };
    assert!(config.validate().is_err());
    config.services[1].name = "api/service".into();
    assert!(config.validate().is_err());
}

#[test]
fn rejects_wrong_endpoint_fields() {
    let mut config = Config {
        services: vec![ServiceConfig {
            name: "api".into(),
            service_type: ServiceType::Http,
            upstream: Some(UpstreamUrl::parse("http://example.com").unwrap()),
            endpoint: None,
            ca_cert: None,
        }],
    };
    assert!(config.validate().is_err());
    config.services[0].service_type = ServiceType::Tcp;
    config.services[0].upstream = None;
    assert!(config.validate().is_err());
}

#[test]
fn rejects_zero_tcp_port() {
    let config = Config { services: vec![tcp("database", 0)] };
    assert!(config.validate().is_err());
}

#[test]
fn every_problem_is_named() {
    assert_eq!(problem_of(vec![]), ConfigError::NoServices);
    let first = |service: ServiceConfig| problem_of(vec![service]);
    let named = |problem: ServiceProblem| ConfigError::Service { index: 0, problem };
    assert_eq!(first(http("")), named(ServiceProblem::InvalidName));
    assert_eq!(first(http(&"n".repeat(65))), named(ServiceProblem::InvalidName));
    let mut both = http("api");
    both.endpoint = tcp("x", 1).endpoint;
    assert_eq!(first(both), named(ServiceProblem::HttpWithEndpoint));
    let mut none = http("api");
    none.upstream = None;
    assert_eq!(first(none), named(ServiceProblem::HttpWithoutUpstream));
    let mut plain = http("api");
    plain.upstream = UpstreamUrl::parse("http://example.com");
    assert_eq!(first(plain), named(ServiceProblem::UpstreamNotHttps));
    let mut upstream = tcp("db", 1);
    upstream.upstream = UpstreamUrl::parse("https://example.com");
    assert_eq!(first(upstream), named(ServiceProblem::TcpWithUpstream));
    let mut missing = tcp("db", 1);
    missing.endpoint = None;
    assert_eq!(first(missing), named(ServiceProblem::TcpWithoutEndpoint));
    assert_eq!(first(tcp("db", 0)), named(ServiceProblem::ZeroPort));
    assert_eq!(
        problem_of(vec![http("a"), tcp("b", 1), http("a")]),
        ConfigError::Service { index: 2, problem: ServiceProblem::DuplicateName }
    );
}

#[test]
fn names_of_services() {
    assert!(is_safe_service_name("api-2_X"));
    assert!(is_safe_service_name(&"n".repeat(64)));
    assert!(!is_safe_service_name("api.service"));
    assert!(!is_safe_service_name("\u{e9}"));
}

#[test]
fn services_are_found_by_name() {
    let config = Config { services: vec![http("api"), tcp("database", 5432)] };
    assert_eq!(config.find("database"), Some(1));
    assert_eq!(config.find("missing"), None);
    assert_eq!(config.service_type("api"), Some(ServiceType::Http));
    assert_eq!(config.service_type("database"), Some(ServiceType::Tcp));
    assert_eq!(config.service_type("missing"), None);
}

#[test]
fn words_of_service_types() {
    assert_eq!(ServiceType::Http.as_str(), "http");
    assert_eq!(ServiceType::Tcp.as_str(), "tcp");
    assert_eq!(ServiceType::from_word("tcp"), Some(ServiceType::Tcp));
    assert_eq!(ServiceType::from_word("HTTP"), None);
}

#[test]
fn addresses_are_compared_whole() {
    let a = SocketAddress::new(IpAddress::V4([127, 0, 0, 1]), 1);
    assert!(a.same(&SocketAddress::new(IpAddress::V4([127, 0, 0, 1]), 1)));
    assert!(!a.same(&SocketAddress::new(IpAddress::V4([127, 0, 0, 2]), 1)));
    assert!(!a.same(&SocketAddress::new(IpAddress::V4([127, 0, 0, 1]), 2)));
    assert!(!a.same(&SocketAddress::new(IpAddress::V6([0; 16]), 1)));
}
