use locho::attach_config::{
    default_listen_host, direct_address_of, AttachConfig, AttachConfigError, AttachProblem,
    AttachServiceConfig, MAX_CONFIGURED_SERVICES,
};
use locho::cli::{
    attach_command, attach_mode, default_attach_listen, normalize_capability,
    AttachArgumentError, AttachArguments, AttachMode,
};
use locho::config::ServiceType;
use locho::diagnostics::{
    check_arguments, report_state_file, validate_host_key, validate_host_state, FileReport,
    wait_for_direct_path, StateProblem,
};
use locho::net::{IpAddress, SocketAddress};
use locho::state::{
    identity_of, load_or_create_host_state, PersistedHostState, ServiceSecrets, StateError,
};

fn service(capability: &str, listen_port: u16) -> AttachServiceConfig {
    AttachServiceConfig { capability: capability.into(), listen_port }
}

fn config(services: Vec<AttachServiceConfig>) -> AttachConfig {
    AttachConfig {
        host_id: "aabb".into(),
        direct_address: None,
        listen_host: IpAddress::V4([127, 0, 0, 1]),
        services,
    }
}

#[test]
fn parses_mixed_attachment_services() {
    let config = config(vec![
        service("api:http:api-secret", 8765),
        service("database:tcp:db-secret", 5432),
    ]);

    config.validate().unwrap();
    let attachments = config.attachments().unwrap();
    assert_eq!(attachments.len(), 2);
    assert_eq!(attachments[0].capability.service, "api");
    assert_eq!(attachments[1].capability.service_type, ServiceType::Tcp);
    assert_eq!(
        attachments[1].listen,
        SocketAddress::new(IpAddress::V4([127, 0, 0, 1]), 5432)
    );
}

#[test]
fn defaults_to_localhost() {
    assert_eq!(default_listen_host(), IpAddress::V4([127, 0, 0, 1]));
}

#[test]
fn rejects_duplicate_services_and_ports() {
    let config = config(vec![service("api:http:one", 8765), service("api:http:two", 8765)]);
    assert!(config.validate().is_err());
}

#[test]
fn load_redacts_invalid_capability_from_errors() {
    let config = config(vec![service("api:invalid:super-secret", 8765)]);
    let error = config.validate().unwrap_err().message(&config);
    assert!(error.contains("service 1"));
    assert!(!error.contains("super-secret"));
}

#[test]
fn attachment_errors_are_spelled_out() {
    let message = |config: AttachConfig| config.validate().unwrap_err().message(&config);
    assert_eq!(
        message(config(vec![])),
        "attachment configuration must define at least one service"
    );
    assert_eq!(
        message(config(vec![service("api:http:one", 1), service("api:tcp:two", 2)])),
        "duplicate attachment service \"api\""
    );
    assert_eq!(
        message(config(vec![service("api:http:one", 1), service("db:tcp:two", 1)])),
        "duplicate attachment listen port 1"
    );
    assert_eq!(
        message(config(vec![service("api:http:one", 0)])),
        "attachment listen port cannot be zero"
    );
    let mut blank = config(vec![service("api:http:one", 1)]);
    blank.host_id = "".into();
    assert_eq!(message(blank), "attachment configuration host_id cannot be empty");
    assert_eq!(
        AttachConfigError::TooManyServices.message(&config(vec![])),
        "attachment configuration cannot define more than 128 services"
    );
}

#[test]
fn every_attachment_problem_is_named() {
    let named = |index: usize, problem: AttachProblem| {
        Err(AttachConfigError::Service { index, problem })
    };
    assert_eq!(config(vec![]).validate(), Err(AttachConfigError::NoServices));
    let mut blank = config(vec![service("api:http:one", 1)]);
    blank.host_id = " \t".into();
    assert_eq!(blank.validate(), Err(AttachConfigError::EmptyHostId));
    assert_eq!(
        config(vec![service("api:http:one", 0)]).validate(),
        Err(AttachConfigError::ZeroPort)
    );
    assert_eq!(
        config(vec![service("api:http:one", 1), service("api:invalid:super-secret", 2)]).validate(),
        named(1, AttachProblem::InvalidCapability)
    );
    assert_eq!(
        config(vec![service("api:http:one", 1), service("api:tcp:two", 2)]).validate(),
        named(1, AttachProblem::DuplicateService)
    );
    assert_eq!(
        config(vec![service("api:http:one", 1), service("db:tcp:two", 1)]).validate(),
        named(1, AttachProblem::DuplicatePort)
    );
    let many: Vec<AttachServiceConfig> = (0..MAX_CONFIGURED_SERVICES + 1)
        .map(|i| service(&format!("s{i}:tcp:x"), i as u16 + 1))
        .collect();
    assert_eq!(config(many).validate(), Err(AttachConfigError::TooManyServices));
}

#[test]
fn command_line_address_comes_first() {
    let given = SocketAddress::new(IpAddress::V4([10, 0, 0, 1]), 1);
    let configured = SocketAddress::new(IpAddress::V4([10, 0, 0, 2]), 2);
    let mut config = config(vec![]);
    config.direct_address = Some(configured);
    assert_eq!(direct_address_of(Some(given), &config), Some(given));
    assert_eq!(direct_address_of(None, &config), Some(configured));
}

#[test]
fn normalizes_legacy_attach_syntax() {
    assert_eq!(
        normalize_capability("api", Some("secret".into()), false).unwrap(),
        "api:http:secret"
    );
    assert_eq!(
        normalize_capability("database", Some("secret".into()), true).unwrap(),
        "database:tcp:secret"
    );
}

#[test]
fn rejects_tcp_flag_with_capability_syntax() {
    assert!(normalize_capability("database:tcp:secret", None, true).is_err());
}

#[test]
fn capability_arguments() {
    assert_eq!(normalize_capability("a:tcp:s", None, false).unwrap(), "a:tcp:s");
    assert!(matches!(
        normalize_capability("a:tcp:s", Some("x".into()), false),
        Err(AttachArgumentError::SecretBesideCapability)
    ));
    assert!(matches!(
        normalize_capability("a", None, false),
        Err(AttachArgumentError::InvalidCapability(_))
    ));
    assert!(matches!(
        normalize_capability("a", None, true),
        Err(AttachArgumentError::TcpWithoutSecret)
    ));
}

fn arguments() -> AttachArguments {
    AttachArguments {
        host_id: None,
        capability: None,
        legacy_secret: None,
        config: false,
        tcp: false,
        listen: default_attach_listen(),
        http_timeout_secs: None,
    }
}

#[test]
fn configuration_excludes_other_arguments() {
    let with_config = || AttachArguments { config: true, ..arguments() };
    assert!(matches!(attach_mode(with_config()), Ok(AttachMode::Config)));
    let refused = |arguments: AttachArguments| {
        matches!(attach_mode(arguments), Err(AttachArgumentError::ConfigWithArguments))
    };
    assert!(refused(AttachArguments { host_id: Some("h".into()), ..with_config() }));
    assert!(refused(AttachArguments { capability: Some("c".into()), ..with_config() }));
    assert!(refused(AttachArguments { legacy_secret: Some("s".into()), ..with_config() }));
    assert!(refused(AttachArguments { tcp: true, ..with_config() }));
    assert!(refused(AttachArguments { http_timeout_secs: Some(90), ..with_config() }));
    let other = SocketAddress::new(IpAddress::V4([127, 0, 0, 1]), 8766);
    assert!(refused(AttachArguments { listen: other, ..with_config() }));
}

#[test]
fn single_attachment_needs_host_and_capability() {
    assert!(matches!(attach_mode(arguments()), Err(AttachArgumentError::MissingHostId)));
    let host = || AttachArguments { host_id: Some("host".into()), ..arguments() };
    assert!(matches!(attach_mode(host()), Err(AttachArgumentError::MissingCapability)));
    let single = AttachArguments { capability: Some("api:http:secret".into()), ..host() };
    match attach_mode(single) {
        Ok(AttachMode::Single { host_id, capability }) => {
            assert_eq!(host_id, "host");
            assert_eq!(capability, "api:http:secret");
        }
        other => panic!("{other:?}"),
    }
}

#[test]
fn commands_are_spelled_out() {
    assert_eq!(
        attach_command("host", "api:http:secret", None),
        "locho attach host api:http:secret"
    );
    assert_eq!(
        attach_command("host", "api secret", Some("192.0.2.10:12345")),
        "locho attach host api secret --direct-address 192.0.2.10:12345"
    );
}

#[test]
fn relayed_path_is_given_time_to_become_direct() {
    assert_eq!(wait_for_direct_path("relay(x)", 0), Some(100));
    assert_eq!(wait_for_direct_path("relay(x)", 1_950), Some(50));
    assert_eq!(wait_for_direct_path("relay(x)", 2_000), None);
    assert_eq!(wait_for_direct_path("direct(x)", 0), None);
}

#[test]
fn missing_state_is_reported_without_failure() {
    assert_eq!(report_state_file(None), FileReport::NotInitialized);
}

#[test]
fn broad_state_permissions_are_rejected() {
    assert_eq!(report_state_file(Some(0o100644)), FileReport::TooBroad(0o644));
    assert_eq!(report_state_file(Some(0o100600)), FileReport::Private);
}

#[test]
fn malformed_host_state_is_rejected_without_exposing_values() {
    let state = PersistedHostState {
        schema_version: 2,
        endpoint_id: "not-an-id".into(),
        attach_secret: "secret".into(),
        service_secrets: ServiceSecrets::new(),
    };
    let error = validate_host_state(&state, None).unwrap_err();
    assert_eq!(error, StateProblem::InvalidEndpointId);
    let error = error.message("host_state.json");
    assert!(error.contains("endpoint ID"));
    assert!(!error.contains("secret"));
}

#[test]
fn invalid_host_key_is_rejected() {
    assert!(validate_host_key(&[0u8; 31]).is_err());
    assert_eq!(validate_host_key(&[0u8; 31]), Err(StateError::InvalidKeyLength(31)));
    let public = *iroh::SecretKey::from_bytes(&[5; 32]).public().as_bytes();
    assert_eq!(validate_host_key(&[5; 32]), Ok(public));
}

#[test]
fn direct_address_requires_host_id() {
    let error = check_arguments(false, true).unwrap_err();
    assert!(error.message().contains("--direct-address requires --host-id"));
    assert!(check_arguments(true, true).is_ok());
    assert!(check_arguments(false, false).is_ok());
    assert!(check_arguments(true, false).is_ok());
}

#[test]
fn state_is_checked_against_the_identity() {
    let id = identity_of([5; 32]).endpoint_id;
    let state = |version: u8, attach_secret: &str, name: &str, secret: &str| {
        let mut service_secrets = ServiceSecrets::new();
        service_secrets.insert(name, secret);
        PersistedHostState {
            schema_version: version,
            endpoint_id: id.clone(),
            attach_secret: attach_secret.into(),
            service_secrets,
        }
    };
    let own = validate_host_key(&[5; 32]).ok();
    let other = validate_host_key(&[6; 32]).ok();
    assert_eq!(validate_host_state(&state(2, "s", "api", "x"), own), Ok(()));
    assert_eq!(validate_host_state(&state(1, "s", "api", "x"), None), Ok(()));
    assert_eq!(
        validate_host_state(&state(3, "s", "api", "x"), own),
        Err(StateProblem::UnsupportedSchema(3))
    );
    assert_eq!(
        validate_host_state(&state(2, "s", "api", "x"), other),
        Err(StateProblem::IdentityMismatch)
    );
    assert_eq!(
        StateProblem::UnsupportedSchema(3).message(""),
        "host state is invalid: unsupported schema version 3"
    );
    for broken in [state(2, " ", "api", "x"), state(2, "s", " ", "x"), state(2, "s", "api", "")] {
        assert_eq!(validate_host_state(&broken, own), Err(StateProblem::EmptyCapability));
    }
}

#[test]
fn written_state_passes_the_check() {
    let identity = identity_of([5; 32]);
    let (state, _) = load_or_create_host_state(None, &identity.endpoint_id).unwrap();
    assert_eq!(validate_host_state(&state, validate_host_key(&[5; 32]).ok()), Ok(()));
}
