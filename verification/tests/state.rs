use locho::atomic_write::{
    fresh_temporary_name, temporary_name_with, AtomicWrite, WriteStep,
};
use locho::config::{Config, ServiceConfig, ServiceType};
use locho::state::{
    ensure_private_file, identity_of, is_shared_mode, load_or_create_host_secret_key,
    load_or_create_host_state, load_with, parse_endpoint_id, read_host_key,
    reconcile_service_secrets, reconcile_with, repair_host_state, rotate_secret, rotate_with,
    PersistedHostState, ServiceSecrets, StateError, CURRENT_SCHEMA_VERSION,
    LEGACY_SCHEMA_VERSION,
};
use locho::upstream::UpstreamUrl;

fn endpoint_id() -> String {
    load_or_create_host_secret_key(None).unwrap().0.endpoint_id
}

fn secrets(pairs: &[(&str, &str)]) -> ServiceSecrets {
    let list: Vec<(String, String)> =
        pairs.iter().map(|(a, b)| (a.to_string(), b.to_string())).collect();
    ServiceSecrets::from_pairs(&list)
}

fn http(name: &str) -> ServiceConfig {
    ServiceConfig {
        name: name.into(),
        service_type: ServiceType::Http,
        upstream: UpstreamUrl::parse("https://example.com"),
        endpoint: None,
        ca_cert: None,
    }
}

#[test]
fn repair_fills_missing_secret_and_endpoint_id() {
    let id = endpoint_id();
    let (state, changed) = repair_host_state(
        PersistedHostState {
            schema_version: CURRENT_SCHEMA_VERSION,
            endpoint_id: "old".into(),
            attach_secret: " ".into(),
            service_secrets: ServiceSecrets::new(),
        },
        &id,
    );
    assert!(changed);
    assert_eq!(state.endpoint_id, id.to_string());
    assert!(!state.attach_secret.is_empty());
}

#[test]
fn repair_keeps_valid_state() {
    let id = endpoint_id();
    let state = PersistedHostState {
        schema_version: CURRENT_SCHEMA_VERSION,
        endpoint_id: id.to_string(),
        attach_secret: "secret".into(),
        service_secrets: ServiceSecrets::new(),
    };
    let (repaired, changed) = repair_host_state(state, &id);
    assert!(!changed);
    assert_eq!(repaired.attach_secret, "secret");
}

#[test]
fn state_persists_key_and_secret() {
    let (identity, new) = load_or_create_host_secret_key(None).unwrap();
    assert!(new);
    let (again, new) = load_or_create_host_secret_key(Some(identity.key.to_vec())).unwrap();
    assert!(!new);
    assert_eq!(again.endpoint_id, identity.endpoint_id);
    let (first, write) = load_or_create_host_state(None, &identity.endpoint_id).unwrap();
    assert!(write);
    let (endpoint_id, attach_secret) = (first.endpoint_id.clone(), first.attach_secret.clone());
    let (second, write) = load_or_create_host_state(Some(first), &again.endpoint_id).unwrap();
    assert!(!write);
    assert_eq!(endpoint_id, second.endpoint_id);
    assert_eq!(attach_secret, second.attach_secret);
    assert_eq!(second.service_secrets, ServiceSecrets::new());
}

#[test]
fn rotating_one_service_preserves_other_capabilities() {
    let id = endpoint_id();
    let mut state = PersistedHostState {
        schema_version: CURRENT_SCHEMA_VERSION,
        endpoint_id: id.clone(),
        attach_secret: "legacy".into(),
        service_secrets: secrets(&[("api", "api-old"), ("db", "db-old")]),
    };
    let db_secret = state.service_secrets.get("db").unwrap().clone();
    rotate_with(&mut state, "api", &id, "api-new").unwrap();
    assert_eq!(state.service_secrets.get("api").unwrap(), "api-new");
    assert_eq!(state.service_secrets.get("db").unwrap(), &db_secret);
}

#[test]
fn unsupported_schema_is_rejected() {
    let state = PersistedHostState {
        schema_version: 3,
        endpoint_id: "old".into(),
        attach_secret: "secret".into(),
        service_secrets: ServiceSecrets::new(),
    };
    let result = load_or_create_host_state(Some(state), &endpoint_id());
    assert!(result.is_err());
    assert_eq!(result.unwrap_err(), StateError::UnsupportedSchema(3));
}

#[test]
fn existing_state_file_is_restricted() {
    assert_eq!(ensure_private_file(0o100644), Some(0o600));
    assert_eq!(ensure_private_file(0o100600), None);
    assert!(is_shared_mode(0o601));
    assert!(is_shared_mode(0o640));
    assert!(!is_shared_mode(0o700));
}

#[test]
fn legacy_state_is_upgraded() {
    let state = PersistedHostState {
        schema_version: LEGACY_SCHEMA_VERSION,
        endpoint_id: "id".into(),
        attach_secret: "secret".into(),
        service_secrets: secrets(&[("api", "kept")]),
    };
    let (state, write) = load_with(Some(state), "id", "fresh".into()).unwrap();
    assert!(write);
    assert_eq!(state.schema_version, CURRENT_SCHEMA_VERSION);
    assert_eq!(state.attach_secret, "secret");
    assert_eq!(state.service_secrets.get("api").unwrap(), "kept");
}

#[test]
fn missing_secret_is_the_fresh_one() {
    let (state, write) = load_with(None, "id", "fresh".into()).unwrap();
    assert!(write);
    assert_eq!(state.attach_secret, "fresh");
    assert_eq!(state.endpoint_id, "id");
}

#[test]
fn rotation_needs_a_service() {
    let (mut state, _) = load_with(None, "id", "fresh".into()).unwrap();
    assert_eq!(
        rotate_secret(&mut state, "missing", "id"),
        Err(StateError::UnknownService)
    );
    state.service_secrets.insert("api", "old");
    let fresh = rotate_secret(&mut state, "api", "id").unwrap();
    assert_eq!(fresh.len(), 64);
    assert_eq!(state.service_secrets.get("api"), Some(&fresh));
}

#[test]
fn keys_have_thirty_two_bytes() {
    assert_eq!(read_host_key(&[0; 31]), Err(StateError::InvalidKeyLength(31)));
    assert_eq!(
        load_or_create_host_secret_key(Some(vec![0; 33])).unwrap_err(),
        StateError::InvalidKeyLength(33)
    );
    assert_eq!(read_host_key(&[7; 32]), Ok([7; 32]));
}

#[test]
fn endpoint_ids_denote_public_keys() {
    let identity = identity_of([7; 32]);
    let key = iroh::SecretKey::from_bytes(&[7; 32]);
    assert_eq!(identity.endpoint_id, key.public().to_string());
    assert_eq!(identity.endpoint_id, hex::encode(key.public().as_bytes()));
    assert_eq!(parse_endpoint_id(&identity.endpoint_id), Some(*key.public().as_bytes()));
    assert_eq!(parse_endpoint_id("not-an-id"), None);
    let one = load_or_create_host_secret_key(None).unwrap().0;
    let two = load_or_create_host_secret_key(None).unwrap().0;
    assert_ne!(one.key, two.key);
}

#[test]
fn secrets_follow_the_configuration() {
    let config = Config { services: vec![http("api"), http("web")] };
    let before = secrets(&[("api", "kept"), ("gone", "x")]);
    let after = reconcile_service_secrets(&before, &config);
    assert_eq!(after.get("api").unwrap(), "kept");
    assert_eq!(after.get("web").unwrap().len(), 64);
    assert!(!after.contains_key("gone"));
    let fresh = vec!["f0".to_string(), "f1".to_string()];
    let given = reconcile_with(&before, &config, &fresh);
    assert_eq!(given.get("web").unwrap(), "f1");
    assert_eq!(given.get("api").unwrap(), "kept");
    let again = reconcile_service_secrets(&after, &config);
    assert_eq!(again.to_pairs(), after.to_pairs());
}

#[test]
fn later_pairs_win() {
    let list = secrets(&[("a", "1"), ("b", "2"), ("a", "3")]);
    assert_eq!(list.get("a").unwrap(), "3");
    assert_eq!(list.to_pairs().len(), 2);
}

#[test]
fn files_are_replaced_step_by_step() {
    let mut write = AtomicWrite::new();
    let mut seen = vec![write.next()];
    while !matches!(write.next(), WriteStep::Succeeded | WriteStep::Failed) {
        write.report(true);
        seen.push(write.next());
    }
    assert_eq!(
        seen,
        vec![
            WriteStep::CreateDirectory,
            WriteStep::CreateTemporary { mode: 0o600 },
            WriteStep::WriteContent,
            WriteStep::SyncContent,
            WriteStep::Rename,
            WriteStep::SyncDirectory,
            WriteStep::Succeeded,
        ]
    );
}

#[test]
fn failed_write_removes_the_temporary_file() {
    for failing in 1..6 {
        let mut write = AtomicWrite::new();
        for _ in 0..failing {
            write.report(true);
        }
        write.report(false);
        assert_eq!(write.next(), WriteStep::RemoveTemporary);
        write.report(false);
        assert_eq!(write.next(), WriteStep::Failed);
    }
    let mut write = AtomicWrite::new();
    write.report(false);
    assert_eq!(write.next(), WriteStep::Failed);
}

#[test]
fn temporary_names() {
    assert_eq!(temporary_name_with("host.key", 42), ".host.key.tmp-42");
    assert_eq!(
        temporary_name_with("x", u64::MAX),
        ".x.tmp-18446744073709551615"
    );
    let one = fresh_temporary_name("host.key");
    assert!(one.starts_with(".host.key.tmp-"));
    assert_ne!(one, fresh_temporary_name("host.key"));
}

#[test]
fn rotated_secret_survives_the_restart() {
    let config = Config { services: vec![http("api"), http("web")] };
    let (mut state, _) = load_with(None, "id", "fresh".into()).unwrap();
    state.service_secrets = reconcile_service_secrets(&state.service_secrets, &config);
    let web = state.service_secrets.get("web").unwrap().clone();
    let rotated = rotate_secret(&mut state, "api", "id").unwrap();
    let after = reconcile_service_secrets(&state.service_secrets, &config);
    assert_eq!(after.get("api"), Some(&rotated));
    assert_eq!(after.get("web"), Some(&web));
}
