//! Checks of the local state, which report no secret.

use crate::state::{self, HostStateView, PersistedHostState, StateError};
use crate::text;
use crate::transport;
use vstd::prelude::*;

verus! {

/// The error of a direct address without the host that is there.
#[derive(Debug, Clone, Copy, PartialEq, Eq, Structural)]
pub struct DirectAddressWithoutHost;

impl DirectAddressWithoutHost {
    /// The message of the error.
    pub fn message(&self) -> (out: &'static str)
        ensures
            out@ == "--direct-address requires --host-id"@,
    {
        "--direct-address requires --host-id"
    }
}

/// Checks that the arguments of `diagnose` go together.
pub fn check_arguments(has_host_id: bool, has_direct_address: bool) -> (out: Result<
    (),
    DirectAddressWithoutHost,
>)
    ensures
        out is Err <==> has_direct_address && !has_host_id,
{
    if has_direct_address && !has_host_id {
        Err(DirectAddressWithoutHost)
    } else {
        Ok(())
    }
}

/// How long `diagnose` waits for a relayed connection to become direct, in
/// milliseconds.
pub const DIRECT_PATH_TIMEOUT: u64 = 2_000;

/// How long it waits between two looks at the path, in milliseconds.
pub const DIRECT_PATH_INTERVAL: u64 = 100;

/// How long to wait before the next look at the path of a connection, after a
/// wait of some milliseconds: a path that is relayed alone may still become
/// direct. Nothing if the path is to be reported as it is.
pub fn wait_for_direct_path(label: &str, waited: u64) -> (out: Option<u64>)
    ensures
        out == if "relay("@.is_prefix_of(label@) && waited < DIRECT_PATH_TIMEOUT {
            if waited + DIRECT_PATH_INTERVAL <= DIRECT_PATH_TIMEOUT {
                Some(DIRECT_PATH_INTERVAL)
            } else {
                Some((DIRECT_PATH_TIMEOUT - waited) as u64)
            }
        } else {
            None
        },
{
    if !transport::is_relayed(label) || waited >= DIRECT_PATH_TIMEOUT {
        None
    } else if waited <= DIRECT_PATH_TIMEOUT - DIRECT_PATH_INTERVAL {
        Some(DIRECT_PATH_INTERVAL)
    } else {
        Some(DIRECT_PATH_TIMEOUT - waited)
    }
}

/// What is found of a file of state.
#[derive(Debug, Clone, Copy, PartialEq, Eq, Structural)]
pub enum FileReport {
    /// There is none.
    NotInitialized,
    /// It is there, and only its owner may use it.
    Private,
    /// Others may use it. Its permission bits are given.
    TooBroad(u32),
}

/// Reports on a file of state from its mode, if it exists.
pub fn report_state_file(mode: Option<u32>) -> (out: FileReport)
    ensures
        out == match mode {
            None => FileReport::NotInitialized,
            Some(mode) => if state::shared_mode(mode) {
                FileReport::TooBroad((mode % 0o1000) as u32)
            } else {
                FileReport::Private
            },
        },
{
    match mode {
        None => FileReport::NotInitialized,
        Some(mode) => {
            let permissions: u32 = mode & 0o777;
            assert(mode & 0o777 == mode % 0o1000) by (bit_vector);
            assert((mode % 0o1000) % 0o100 == mode % 0o100) by (bit_vector);
            if state::is_shared_mode(permissions) {
                FileReport::TooBroad(permissions)
            } else {
                FileReport::Private
            }
        },
    }
}

/// The public key of the identity in a key file.
pub fn validate_host_key(bytes: &[u8]) -> (out: Result<[u8; 32], StateError>)
    ensures
        match out {
            Ok(identity) => bytes@.len() == 32 && identity@ == state::public_key(bytes@),
            Err(e) => bytes@.len() != 32 && e == StateError::InvalidKeyLength(
                bytes@.len() as usize,
            ),
        },
{
    match state::read_host_key(bytes) {
        Ok(key) => {
            let identity = state::identity_of(key);
            match state::parse_endpoint_id(identity.endpoint_id.as_str()) {
                Some(public) => Ok(public),
                None => {
                    assert(false);
                    Err(StateError::InvalidKeyLength(bytes.len()))
                },
            }
        },
        Err(e) => Err(e),
    }
}

/// What is wrong with persisted state.
#[derive(Debug, Clone, Copy, PartialEq, Eq, Structural)]
pub enum StateProblem {
    /// The schema is not known.
    UnsupportedSchema(u8),
    /// The endpoint ID denotes no key.
    InvalidEndpointId,
    /// The endpoint ID is not that of the persisted identity.
    IdentityMismatch,
    /// A secret, or the name of a service, is blank.
    EmptyCapability,
}

/// The message for a problem of the state in the file at `path`.
pub open spec fn problem_text(problem: StateProblem, path: Seq<char>) -> Seq<char> {
    match problem {
        StateProblem::UnsupportedSchema(version) =>
            "host state is invalid: unsupported schema version "@ + text::decimal_digits(
            version as nat,
        ),
        StateProblem::InvalidEndpointId => "host state has an invalid endpoint ID in "@ + path,
        StateProblem::IdentityMismatch =>
            "host state endpoint ID does not match the persisted host identity"@,
        StateProblem::EmptyCapability => "host state contains an empty capability value"@,
    }
}

impl StateProblem {
    /// The message for the problem, which tells nothing of the state but its
    /// schema version.
    pub fn message(&self, path: &str) -> (out: String)
        ensures
            out@ == problem_text(*self, path@),
    {
        match self {
            StateProblem::UnsupportedSchema(version) => {
                let mut out = "host state is invalid: unsupported schema version ".to_owned();
                out.append(text::decimal(*version as u64).as_str());
                out
            },
            StateProblem::InvalidEndpointId => {
                let mut out = "host state has an invalid endpoint ID in ".to_owned();
                out.append(path);
                out
            },
            StateProblem::IdentityMismatch => {
                "host state endpoint ID does not match the persisted host identity".to_owned()
            },
            StateProblem::EmptyCapability => {
                "host state contains an empty capability value".to_owned()
            },
        }
    }
}

/// Whether a secret, or the name of a service, is blank.
pub open spec fn has_blank(host: HostStateView) -> bool {
    ||| text::blank(host.attach_secret)
    ||| exists|name: Seq<char>| #[trigger]
        host.service_secrets.dom().contains(name) && (text::blank(name) || text::blank(
            host.service_secrets[name],
        ))
}

/// What is wrong with persisted state, given the key of the persisted
/// identity.
pub open spec fn state_problem(host: HostStateView, identity: Option<Seq<u8>>) -> Option<
    StateProblem,
> {
    if !state::known_schema(host.schema_version) {
        Some(StateProblem::UnsupportedSchema(host.schema_version))
    } else {
        match state::endpoint_key(host.endpoint_id) {
            None => Some(StateProblem::InvalidEndpointId),
            Some(key) => if identity is Some && identity != Some(key) {
                Some(StateProblem::IdentityMismatch)
            } else if has_blank(host) {
                Some(StateProblem::EmptyCapability)
            } else {
                None
            },
        }
    }
}

/// The bytes of an optional key.
pub open spec fn key_bytes(key: Option<[u8; 32]>) -> Option<Seq<u8>> {
    match key {
        Some(key) => Some(key@),
        None => None,
    }
}

fn same_key(a: &[u8; 32], b: &[u8; 32]) -> (r: bool)
    ensures
        r == (a@ == b@),
{
    for i in 0..32usize
        invariant
            forall|j: int| 0 <= j < i ==> a@[j] == b@[j],
    {
        if a[i] != b[i] {
            return false;
        }
    }
    assert(a@ =~= b@);
    true
}

fn find_blank(host: &PersistedHostState) -> (r: bool)
    ensures
        r == has_blank(host@),
{
    if text::is_blank(host.attach_secret.as_str()) {
        return true;
    }
    let pairs = host.service_secrets.to_pairs();
    for i in 0..pairs.len()
        invariant
            host.service_secrets@ == state::secrets_in(pairs@),
            forall|a: int, b: int|
                0 <= a < b < pairs@.len() ==> (#[trigger] pairs@[a]).0@ != (
                #[trigger] pairs@[b]).0@,
            forall|j: int|
                0 <= j < i ==> !text::blank((#[trigger] pairs@[j]).0@) && !text::blank(pairs@[j].1@),
    {
        if text::is_blank(pairs[i].0.as_str()) || text::is_blank(pairs[i].1.as_str()) {
            proof {
                state::lemma_pair_in(pairs@, i as int);
                assert(host@.service_secrets.dom().contains(pairs@[i as int].0@));
            }
            return true;
        }
    }
    proof {
        assert forall|name: Seq<char>| #[trigger]
            host.service_secrets@.dom().contains(name) implies !text::blank(name) && !text::blank(
            host.service_secrets@[name],
        ) by {
            state::lemma_named_pair(pairs@, name);
        }
    }
    false
}

/// Checks persisted state against the key of the persisted identity.
pub fn validate_host_state(host: &PersistedHostState, identity: Option<[u8; 32]>) -> (out: Result<
    (),
    StateProblem,
>)
    ensures
        match out {
            Ok(()) => state_problem(host@, key_bytes(identity)) is None,
            Err(problem) => state_problem(host@, key_bytes(identity)) == Some(problem),
        },
{
    if host.schema_version != state::LEGACY_SCHEMA_VERSION && host.schema_version
        != state::CURRENT_SCHEMA_VERSION {
        return Err(StateProblem::UnsupportedSchema(host.schema_version));
    }
    let key = match state::parse_endpoint_id(host.endpoint_id.as_str()) {
        Some(key) => key,
        None => {
            return Err(StateProblem::InvalidEndpointId);
        },
    };
    if let Some(identity) = identity {
        if !same_key(&identity, &key) {
            return Err(StateProblem::IdentityMismatch);
        }
    }
    if find_blank(host) {
        return Err(StateProblem::EmptyCapability);
    }
    Ok(())
}

/// What a host writes when it starts passes the check, where no name and no
/// secret of a service is blank: the state has the current schema and the
/// identity of the host.
pub proof fn law_written_state_is_valid(
    found: Option<HostStateView>,
    endpoint_id: Seq<char>,
    key: Seq<u8>,
    fresh: Seq<char>,
)
    requires
        state::readable(found),
        state::endpoint_key(endpoint_id) == Some(key),
        !text::blank(fresh),
        found matches Some(host) ==> forall|name: Seq<char>| #[trigger]
            host.service_secrets.dom().contains(name) ==> !text::blank(name) && !text::blank(
                host.service_secrets[name],
            ),
    ensures
        state_problem(state::loaded(found, endpoint_id, fresh), Some(key)) is None,
{
}

/// State is valid exactly if its schema is known, its endpoint ID denotes a
/// key, which is that of the persisted identity if there is one, and nothing
/// in it is blank. What is wrong is told in this order.
pub proof fn law_state_problems(host: HostStateView, identity: Option<Seq<u8>>)
    ensures
        ({
            let found = state_problem(host, identity);
            let known = host.schema_version == 1 || host.schema_version == 2;
            let key = state::endpoint_key(host.endpoint_id);
            let other = identity is Some && key is Some && identity->0 != key->0;
            let blank = text::blank(host.attach_secret) || exists|name: Seq<char>| #[trigger]
                host.service_secrets.dom().contains(name) && (text::blank(name) || text::blank(
                    host.service_secrets[name],
                ));
            &&& found == Some(StateProblem::UnsupportedSchema(host.schema_version)) <==> !known
            &&& found == Some(StateProblem::InvalidEndpointId) <==> known && key is None
            &&& found == Some(StateProblem::IdentityMismatch) <==> known && key is Some && other
            &&& found == Some(StateProblem::EmptyCapability) <==> known && key is Some && !other
                && blank
            &&& found is None <==> known && key is Some && !other && !blank
        }),
{
}

/// The message for a problem tells the schema that is not known, or the file
/// whose endpoint ID is none, and nothing else of the state.
pub proof fn law_problem_messages(version: u8, path: Seq<char>)
    ensures
        problem_text(StateProblem::UnsupportedSchema(version), path)
            == "host state is invalid: unsupported schema version "@ + text::decimal_digits(
            version as nat,
        ),
        problem_text(StateProblem::InvalidEndpointId, path)
            == "host state has an invalid endpoint ID in "@ + path,
        problem_text(StateProblem::IdentityMismatch, path)
            == "host state endpoint ID does not match the persisted host identity"@,
        problem_text(StateProblem::EmptyCapability, path)
            == "host state contains an empty capability value"@,
{
}

} // verus!
