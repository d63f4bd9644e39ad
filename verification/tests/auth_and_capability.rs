use locho::auth::{generate_secret, secret_from_bytes, secret_proof, verify_secret_proof};
use locho::capability::{parse, Capability, CapabilityError};
use locho::config::ServiceType;

#[test]
fn secret_is_random_hex_and_verifies() {
    let secret = generate_secret();
    assert_eq!(secret.len(), 64);
    assert!(verify_secret_proof(&secret, &secret_proof(&secret)).is_ok());
    assert!(verify_secret_proof("wrong", &secret_proof(&secret)).is_err());
}

#[test]
fn malformed_and_modified_proofs_are_rejected() {
    let secret = generate_secret();
    let proof = secret_proof(&secret);
    let replacement = if &proof[..1] == "0" { "1" } else { "0" };
    let modified = format!("{replacement}{}", &proof[1..]);

    assert!(verify_secret_proof(&secret, "not-a-proof").is_err());
    assert!(verify_secret_proof(&secret, &modified).is_err());
}

#[test]
fn secrets_differ_and_are_hex() {
    let one = generate_secret();
    let two = generate_secret();
    assert_ne!(one, two);
    assert!(one.bytes().all(|b| b.is_ascii_digit() || (b'a'..=b'f').contains(&b)));
}

#[test]
fn secret_text_is_lower_case_hex() {
    let mut bytes = [0u8; 32];
    bytes[0] = 0x0f;
    bytes[31] = 0xa0;
    let text = secret_from_bytes(&bytes);
    assert!(text.starts_with("0f00"));
    assert!(text.ends_with("00a0"));
    assert_eq!(text.len(), 64);
}

#[test]
fn proof_is_the_labelled_digest() {
    // SHA-256 of "locho-v1:secret".
    let proof = secret_proof("secret");
    assert_eq!(proof.len(), 64);
    let digest = <sha2::Sha256 as sha2::Digest>::digest(b"locho-v1:secret");
    assert_eq!(proof, hex::encode(digest));
    assert_ne!(proof, secret_proof("secreT"));
}

#[test]
fn formats_and_parses_capability() {
    let value = locho::capability::format("database", &ServiceType::Tcp, "secret");
    assert_eq!(
        parse(&value).unwrap(),
        Capability {
            service: "database".into(),
            service_type: ServiceType::Tcp,
            secret: "secret".into(),
        }
    );
}

#[test]
fn rejects_malformed_capability() {
    for value in ["database", "database:udp:secret", "database:tcp", "database:tcp:x:y"] {
        assert!(parse(value).is_err(), "accepted malformed capability {value}");
    }
}

#[test]
fn capability_errors_are_told_apart() {
    assert_eq!(parse("database:tcp:x:y"), Err(CapabilityError::Malformed));
    assert_eq!(parse("a b:tcp:x"), Err(CapabilityError::Malformed));
    assert_eq!(parse(""), Err(CapabilityError::Malformed));
    assert_eq!(
        parse("database:udp:secret"),
        Err(CapabilityError::InvalidServiceType("udp".into()))
    );
    assert_eq!(
        parse("database"),
        Err(CapabilityError::InvalidServiceType("".into()))
    );
    assert_eq!(parse("database:tcp"), Err(CapabilityError::EmptySecret));
    assert_eq!(parse("database:tcp:"), Err(CapabilityError::EmptySecret));
}

#[test]
fn capability_has_one_spelling() {
    let text = "api:http:0123";
    let capability = parse(text).unwrap();
    assert_eq!(
        locho::capability::format(&capability.service, &capability.service_type, &capability.secret),
        text
    );
    assert_eq!(capability.clone(), capability);
}
