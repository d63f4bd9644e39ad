//! Persisted host state: the identity and the secrets of the services.

use crate::auth;
use crate::config::{Config, ServiceConfig};
use crate::text;
use vstd::prelude::*;

verus! {

/// The schema that is written.
pub const CURRENT_SCHEMA_VERSION: u8 = 2;

/// The schema of older hosts, which had one secret for all services.
pub const LEGACY_SCHEMA_VERSION: u8 = 1;

/// Why persisted state cannot be used or changed.
#[derive(Debug, Clone, Copy, PartialEq, Eq, Structural)]
pub enum StateError {
    /// The state was written with a schema that is not known.
    UnsupportedSchema(u8),
    /// The key file does not have 32 bytes.
    InvalidKeyLength(usize),
    /// The host has no service of that name.
    UnknownService,
}

// ---------------------------------------------------------------------------
// Secrets by service
// ---------------------------------------------------------------------------

/// The secrets of services, by name.
#[derive(Debug, PartialEq, Eq)]
pub struct ServiceSecrets {
    entries: Vec<(String, String)>,
}

/// The secret of a name in a list, the last if there are several.
pub open spec fn secret_in(entries: Seq<(String, String)>, name: Seq<char>) -> Option<Seq<char>>
    decreases entries.len(),
{
    if entries.len() == 0 {
        None
    } else if entries.last().0@ == name {
        Some(entries.last().1@)
    } else {
        secret_in(entries.drop_last(), name)
    }
}

/// The secrets of a list, by name; of several for one name the last counts.
pub open spec fn secrets_in(entries: Seq<(String, String)>) -> Map<Seq<char>, Seq<char>> {
    Map::new(
        |name: Seq<char>| secret_in(entries, name) is Some,
        |name: Seq<char>| secret_in(entries, name)->0,
    )
}

impl View for ServiceSecrets {
    type V = Map<Seq<char>, Seq<char>>;

    closed spec fn view(&self) -> Map<Seq<char>, Seq<char>> {
        secrets_in(self.entries@)
    }
}

proof fn lemma_secret_in(entries: Seq<(String, String)>, name: Seq<char>)
    ensures
        secret_in(entries, name) is Some <==> exists|i: int|
            0 <= i < entries.len() && (#[trigger] entries[i]).0@ == name,
    decreases entries.len(),
{
    if entries.len() > 0 {
        let front = entries.drop_last();
        lemma_secret_in(front, name);
        if exists|i: int| 0 <= i < entries.len() && (#[trigger] entries[i]).0@ == name {
            let i = choose|i: int| 0 <= i < entries.len() && (#[trigger] entries[i]).0@ == name;
            if i < front.len() {
                assert(front[i].0@ == name);
            }
        }
        if exists|i: int| 0 <= i < front.len() && (#[trigger] front[i]).0@ == name {
            let i = choose|i: int| 0 <= i < front.len() && (#[trigger] front[i]).0@ == name;
            assert(entries[i].0@ == name);
        }
        if entries.last().0@ == name {
            assert(entries[entries.len() - 1].0@ == name);
        }
    }
}

proof fn lemma_secret_at(entries: Seq<(String, String)>, i: int)
    requires
        distinct(entries),
        0 <= i < entries.len(),
    ensures
        secret_in(entries, entries[i].0@) == Some(entries[i].1@),
    decreases entries.len(),
{
    if i < entries.len() - 1 {
        let front = entries.drop_last();
        assert forall|a: int, b: int| 0 <= a < b < front.len() implies (#[trigger] front[a]).0@ != (
        #[trigger] front[b]).0@ by {
            assert(front[a] == entries[a] && front[b] == entries[b]);
        }
        lemma_secret_at(front, i);
        assert(front[i] == entries[i]);
        assert(entries[entries.len() - 1].0@ != entries[i].0@);
    }
}

/// No two entries have the same name.
spec fn distinct(entries: Seq<(String, String)>) -> bool {
    forall|a: int, b: int|
        0 <= a < b < entries.len() ==> (#[trigger] entries[a]).0@ != (#[trigger] entries[b]).0@
}

impl ServiceSecrets {
    #[verifier::type_invariant]
    spec fn inv(self) -> bool {
        distinct(self.entries@)
    }

    /// No secrets.
    pub fn new() -> (out: ServiceSecrets)
        ensures
            out@ == Map::<Seq<char>, Seq<char>>::empty(),
    {
        let out = ServiceSecrets { entries: Vec::new() };
        assert(out@ =~= Map::<Seq<char>, Seq<char>>::empty());
        out
    }

    fn position(&self, name: &str) -> (out: Option<usize>)
        ensures
            match out {
                Some(i) => i < self.entries@.len() && self.entries@[i as int].0@ == name@ && self@.dom().contains(
                    name@,
                ) && self@[name@] == self.entries@[i as int].1@,
                None => !self@.dom().contains(name@) && forall|j: int|
                    0 <= j < self.entries@.len() ==> (#[trigger] self.entries@[j]).0@ != name@,
            },
    {
        proof {
            use_type_invariant(self);
            lemma_secret_in(self.entries@, name@);
        }
        for i in 0..self.entries.len()
            invariant
                distinct(self.entries@),
                forall|j: int| 0 <= j < i ==> (#[trigger] self.entries@[j]).0@ != name@,
        {
            if text::same(self.entries[i].0.as_str(), name) {
                proof {
                    lemma_secret_at(self.entries@, i as int);
                }
                return Some(i);
            }
        }
        None
    }

    /// The secret of a service.
    pub fn get(&self, name: &str) -> (out: Option<&String>)
        ensures
            match out {
                Some(secret) => self@.dom().contains(name@) && self@[name@] == secret@,
                None => !self@.dom().contains(name@),
            },
    {
        match self.position(name) {
            Some(i) => Some(&self.entries[i].1),
            None => None,
        }
    }

    /// Whether a service has a secret.
    pub fn contains_key(&self, name: &str) -> (r: bool)
        ensures
            r == self@.dom().contains(name@),
    {
        self.position(name).is_some()
    }

    /// Sets the secret of a service.
    pub fn insert(&mut self, name: &str, secret: &str)
        ensures
            final(self)@ == old(self)@.insert(name@, secret@),
    {
        proof {
            use_type_invariant(&*self);
        }
        let ghost before = self.entries@;
        let at = self.position(name);
        let mut entries: Vec<(String, String)> = Vec::new();
        std::mem::swap(&mut entries, &mut self.entries);
        match at {
            Some(i) => {
                entries.set(i, (name.to_owned(), secret.to_owned()));
                proof {
                    assert forall|n: Seq<char>| #[trigger] secret_in(entries@, n) == if n == name@ {
                        Some(secret@)
                    } else {
                        secret_in(before, n)
                    } by {
                        lemma_update(before, i as int, entries@[i as int], n);
                    }
                }
            },
            None => {
                entries.push((name.to_owned(), secret.to_owned()));
                proof {
                    assert(entries@.drop_last() =~= before);
                }
            },
        }
        self.entries = entries;
        proof {
            assert(secrets_in(self.entries@) =~= secrets_in(before).insert(name@, secret@));
        }
    }

    /// The names and secrets as a list, each name once.
    pub fn to_pairs(&self) -> (out: &Vec<(String, String)>)
        ensures
            self@ == secrets_in(out@),
            forall|a: int, b: int|
                0 <= a < b < out@.len() ==> (#[trigger] out@[a]).0@ != (#[trigger] out@[b]).0@,
    {
        proof {
            use_type_invariant(self);
        }
        &self.entries
    }

    /// All secrets, without the names.
    fn all_secrets(&self) -> (out: Vec<String>)
        ensures
            forall|name: Seq<char>| #[trigger]
                self@.dom().contains(name) ==> exists|i: int|
                    0 <= i < out@.len() && self@[name] == (#[trigger] out@[i])@,
    {
        let mut out: Vec<String> = Vec::new();
        let pairs = self.to_pairs();
        for i in 0..pairs.len()
            invariant
                out@.len() == i,
                forall|j: int| 0 <= j < i ==> (#[trigger] out@[j])@ == pairs@[j].1@,
        {
            out.push(pairs[i].1.clone());
        }
        proof {
            assert forall|name: Seq<char>| #[trigger] self@.dom().contains(name) implies exists|i: int|
                0 <= i < out@.len() && self@[name] == (#[trigger] out@[i])@ by {
                lemma_named_pair(pairs@, name);
                let i = choose|i: int|
                    0 <= i < pairs@.len() && (#[trigger] pairs@[i]).0@ == name && self@[name]
                        == pairs@[i].1@;
                assert(out@[i]@ == self@[name]);
            }
        }
        out
    }

    /// The secrets in a list. Of several for one name the last counts.
    pub fn from_pairs(pairs: &Vec<(String, String)>) -> (out: ServiceSecrets)
        ensures
            out@ == secrets_in(pairs@),
    {
        let mut out = ServiceSecrets::new();
        assert(secrets_in(pairs@.take(0)) =~= Map::<Seq<char>, Seq<char>>::empty());
        for i in 0..pairs.len()
            invariant
                out@ == secrets_in(pairs@.take(i as int)),
        {
            out.insert(pairs[i].0.as_str(), pairs[i].1.as_str());
            proof {
                assert(pairs@.take(i + 1).drop_last() =~= pairs@.take(i as int));
                assert(secrets_in(pairs@.take(i + 1)) =~= secrets_in(pairs@.take(i as int)).insert(
                    pairs@[i as int].0@,
                    pairs@[i as int].1@,
                ));
            }
        }
        assert(pairs@.take(pairs@.len() as int) =~= pairs@);
        out
    }
}

proof fn lemma_update(
    entries: Seq<(String, String)>,
    i: int,
    entry: (String, String),
    name: Seq<char>,
)
    requires
        distinct(entries),
        0 <= i < entries.len(),
        entry.0@ == entries[i].0@,
    ensures
        secret_in(entries.update(i, entry), name) == if name == entry.0@ {
            Some(entry.1@)
        } else {
            secret_in(entries, name)
        },
    decreases entries.len(),
{
    let front = entries.drop_last();
    let after = entries.update(i, entry);
    if i == entries.len() - 1 {
        assert(after.drop_last() =~= front);
    } else {
        assert forall|a: int, b: int| 0 <= a < b < front.len() implies (#[trigger] front[a]).0@ != (
        #[trigger] front[b]).0@ by {
            assert(front[a] == entries[a] && front[b] == entries[b]);
        }
        lemma_update(front, i, entry, name);
        assert(after.drop_last() =~= front.update(i, entry));
        assert(entries[entries.len() - 1].0@ != entries[i].0@);
    }
}

/// A pair of a list without repeated names is one of its secrets.
pub proof fn lemma_pair_in(pairs: Seq<(String, String)>, i: int)
    requires
        forall|a: int, b: int|
            0 <= a < b < pairs.len() ==> (#[trigger] pairs[a]).0@ != (#[trigger] pairs[b]).0@,
        0 <= i < pairs.len(),
    ensures
        secrets_in(pairs).dom().contains(pairs[i].0@),
        secrets_in(pairs)[pairs[i].0@] == pairs[i].1@,
{
    lemma_secret_at(pairs, i);
}

/// Every secret of a list without repeated names is in one of its pairs.
pub proof fn lemma_named_pair(pairs: Seq<(String, String)>, name: Seq<char>)
    requires
        forall|a: int, b: int|
            0 <= a < b < pairs.len() ==> (#[trigger] pairs[a]).0@ != (#[trigger] pairs[b]).0@,
        secrets_in(pairs).dom().contains(name),
    ensures
        exists|i: int|
            0 <= i < pairs.len() && (#[trigger] pairs[i]).0@ == name && secrets_in(pairs)[name]
                == pairs[i].1@,
{
    lemma_secret_in(pairs, name);
    let i = choose|i: int| 0 <= i < pairs.len() && (#[trigger] pairs[i]).0@ == name;
    lemma_secret_at(pairs, i);
}

// ---------------------------------------------------------------------------
// Host identity
// ---------------------------------------------------------------------------

/// The public key of a host's secret key.
pub uninterp spec fn public_key(key: Seq<u8>) -> Seq<u8>;

/// The public key that an endpoint ID denotes: nothing if it denotes none.
pub uninterp spec fn endpoint_key(id: Seq<char>) -> Option<Seq<u8>>;

/// `iroh::SecretKey::generate`, as bytes. Nothing is claimed of what the
/// bytes are.
#[verifier::external_body]
fn generate_key() -> (key: [u8; 32]) {
    iroh::SecretKey::generate().to_bytes()
}

/// The endpoint ID of an `iroh::SecretKey`: its public key, which has 32
/// bytes, in hexadecimal. The ID denotes that key.
#[verifier::external_body]
fn endpoint_id_of(key: &[u8; 32]) -> (id: String)
    ensures
        id@ == auth::hex_text(public_key(key@)),
        id@.len() == 64,
        endpoint_key(id@) == Some(public_key(key@)),
{
    iroh::SecretKey::from_bytes(key).public().to_string()
}

/// `iroh::EndpointId::from_str`: the key that an ID denotes.
#[verifier::external_body]
fn read_endpoint_id(id: &str) -> (out: Option<[u8; 32]>)
    ensures
        match out {
            Some(key) => endpoint_key(id@) == Some(key@),
            None => endpoint_key(id@) is None,
        },
{
    id.parse::<iroh::EndpointId>().ok().map(|key| *key.as_bytes())
}

/// The key that an endpoint ID denotes.
pub fn parse_endpoint_id(id: &str) -> (out: Option<[u8; 32]>)
    ensures
        match out {
            Some(key) => endpoint_key(id@) == Some(key@),
            None => endpoint_key(id@) is None,
        },
{
    read_endpoint_id(id)
}

/// The identity of a host.
#[derive(Debug)]
pub struct HostIdentity {
    /// The secret key.
    pub key: [u8; 32],
    /// The endpoint ID that peers know the host by.
    pub endpoint_id: String,
}

/// The secret key in a key file.
pub fn read_host_key(bytes: &[u8]) -> (out: Result<[u8; 32], StateError>)
    ensures
        match out {
            Ok(key) => key@ == bytes@,
            Err(e) => bytes@.len() != 32 && e == StateError::InvalidKeyLength(bytes@.len() as usize),
        },
{
    if bytes.len() != 32 {
        return Err(StateError::InvalidKeyLength(bytes.len()));
    }
    let mut key: [u8; 32] = [0u8; 32];
    for i in 0..32usize
        invariant
            bytes@.len() == 32,
            forall|j: int| 0 <= j < i ==> key@[j] == bytes@[j],
    {
        key[i] = bytes[i];
    }
    assert(key@ =~= bytes@);
    Ok(key)
}

/// The identity that a secret key gives.
pub fn identity_of(key: [u8; 32]) -> (out: HostIdentity)
    ensures
        out.key == key,
        out.endpoint_id@ == auth::hex_text(public_key(key@)),
        endpoint_key(out.endpoint_id@) == Some(public_key(key@)),
{
    let endpoint_id = endpoint_id_of(&key);
    HostIdentity { key, endpoint_id }
}

/// The identity of a host: that of its key file, or a new one, which is to be
/// written, if there is none. The second result says whether it is new.
pub fn load_or_create_host_secret_key(file: Option<Vec<u8>>) -> (out: Result<
    (HostIdentity, bool),
    StateError,
>)
    ensures
        match file {
            Some(bytes) => match out {
                Ok((identity, new)) => !new && identity.key@ == bytes@,
                Err(e) => bytes@.len() != 32 && e == StateError::InvalidKeyLength(
                    bytes@.len() as usize,
                ),
            },
            None => out matches Ok((identity, new)) && new,
        },
        out matches Ok((identity, _)) ==> identity.endpoint_id@ == auth::hex_text(
            public_key(identity.key@),
        ) && endpoint_key(identity.endpoint_id@) == Some(public_key(identity.key@)),
{
    match file {
        Some(bytes) => match read_host_key(bytes.as_slice()) {
            Ok(key) => Ok((identity_of(key), false)),
            Err(e) => Err(e),
        },
        None => Ok((identity_of(generate_key()), true)),
    }
}

// ---------------------------------------------------------------------------
// Host state
// ---------------------------------------------------------------------------

/// What a host keeps between runs.
#[derive(Debug, PartialEq, Eq)]
pub struct PersistedHostState {
    pub schema_version: u8,
    pub endpoint_id: String,
    pub attach_secret: String,
    pub service_secrets: ServiceSecrets,
}

/// The content of a host's state.
pub struct HostStateView {
    pub schema_version: u8,
    pub endpoint_id: Seq<char>,
    pub attach_secret: Seq<char>,
    pub service_secrets: Map<Seq<char>, Seq<char>>,
}

impl View for PersistedHostState {
    type V = HostStateView;

    open spec fn view(&self) -> HostStateView {
        HostStateView {
            schema_version: self.schema_version,
            endpoint_id: self.endpoint_id@,
            attach_secret: self.attach_secret@,
            service_secrets: self.service_secrets@,
        }
    }
}

/// Whether a schema can be read.
pub open spec fn known_schema(version: u8) -> bool {
    version == CURRENT_SCHEMA_VERSION || version == LEGACY_SCHEMA_VERSION
}

/// Whether state needs repair under an endpoint ID.
pub open spec fn needs_repair(state: HostStateView, endpoint_id: Seq<char>) -> bool {
    state.endpoint_id != endpoint_id || text::blank(state.attach_secret)
}

/// State after a repair: it has the endpoint ID of the host, and a blank
/// secret is replaced.
pub open spec fn repaired(
    state: HostStateView,
    endpoint_id: Seq<char>,
    fresh: Seq<char>,
) -> HostStateView {
    HostStateView {
        endpoint_id,
        attach_secret: if text::blank(state.attach_secret) {
            fresh
        } else {
            state.attach_secret
        },
        ..state
    }
}

/// The state of a host that has none.
pub open spec fn first_state(endpoint_id: Seq<char>, fresh: Seq<char>) -> HostStateView {
    HostStateView {
        schema_version: CURRENT_SCHEMA_VERSION,
        endpoint_id,
        attach_secret: fresh,
        service_secrets: Map::empty(),
    }
}

/// The state that a host runs with, given what it found.
pub open spec fn loaded(
    found: Option<HostStateView>,
    endpoint_id: Seq<char>,
    fresh: Seq<char>,
) -> HostStateView {
    match found {
        Some(state) => HostStateView {
            schema_version: CURRENT_SCHEMA_VERSION,
            ..repaired(state, endpoint_id, fresh)
        },
        None => first_state(endpoint_id, fresh),
    }
}

/// The content of what a host found.
pub open spec fn state_found(found: Option<PersistedHostState>) -> Option<HostStateView> {
    match found {
        Some(state) => Some(state@),
        None => None,
    }
}

/// Whether what a host found can be read.
pub open spec fn readable(found: Option<HostStateView>) -> bool {
    found matches Some(state) ==> known_schema(state.schema_version)
}

/// Whether the state that a host runs with has to be written.
pub open spec fn needs_write(found: Option<HostStateView>, endpoint_id: Seq<char>) -> bool {
    match found {
        Some(state) => needs_repair(state, endpoint_id) || state.schema_version
            == LEGACY_SCHEMA_VERSION,
        None => true,
    }
}

/// Repairs state with a given secret for the case that it has none. The
/// second result says whether anything changed.
pub fn repair_with(state: PersistedHostState, endpoint_id: &str, fresh: String) -> (out: (
    PersistedHostState,
    bool,
))
    ensures
        out.0@ == repaired(state@, endpoint_id@, fresh@),
        out.1 == needs_repair(state@, endpoint_id@),
{
    let mut state = state;
    let mut changed = false;
    if !text::same(state.endpoint_id.as_str(), endpoint_id) {
        state.endpoint_id = endpoint_id.to_owned();
        changed = true;
    }
    if text::is_blank(state.attach_secret.as_str()) {
        state.attach_secret = fresh;
        changed = true;
    }
    (state, changed)
}

/// Repairs state, with a random secret where one is missing.
pub fn repair_host_state(state: PersistedHostState, endpoint_id: &str) -> (out: (
    PersistedHostState,
    bool,
))
    ensures
        exists|fresh: Seq<char>|
            fresh.len() == 64 && auth::is_hex_text(fresh) && out.0@ == #[trigger] repaired(
                state@,
                endpoint_id@,
                fresh,
            ),
        out.1 == needs_repair(state@, endpoint_id@),
{
    let fresh = auth::generate_secret();
    let ghost secret = fresh@;
    let ghost before = state@;
    let out = repair_with(state, endpoint_id, fresh);
    assert(out.0@ == repaired(before, endpoint_id@, secret));
    out
}

/// The state that a host runs with, and whether it has to be written, with a
/// given secret for the case that one is needed.
pub fn load_with(found: Option<PersistedHostState>, endpoint_id: &str, fresh: String) -> (out: Result<
    (PersistedHostState, bool),
    StateError,
>)
    ensures
        match out {
            Ok((after, write)) => readable(state_found(found)) && after@ == loaded(
                state_found(found),
                endpoint_id@,
                fresh@,
            ) && write == needs_write(state_found(found), endpoint_id@),
            Err(e) => !readable(state_found(found)) && e == StateError::UnsupportedSchema(
                found->Some_0.schema_version,
            ),
        },
{
    match found {
        Some(state) => {
            if state.schema_version != CURRENT_SCHEMA_VERSION && state.schema_version
                != LEGACY_SCHEMA_VERSION {
                return Err(StateError::UnsupportedSchema(state.schema_version));
            }
            let (mut state, mut changed) = repair_with(state, endpoint_id, fresh);
            if state.schema_version == LEGACY_SCHEMA_VERSION {
                state.schema_version = CURRENT_SCHEMA_VERSION;
                changed = true;
            }
            Ok((state, changed))
        },
        None => {
            let state = PersistedHostState {
                schema_version: CURRENT_SCHEMA_VERSION,
                endpoint_id: endpoint_id.to_owned(),
                attach_secret: fresh,
                service_secrets: ServiceSecrets::new(),
            };
            Ok((state, true))
        },
    }
}

/// The state that a host runs with, and whether it has to be written. Where a
/// secret is needed it is a random one.
pub fn load_or_create_host_state(found: Option<PersistedHostState>, endpoint_id: &str) -> (out: Result<
    (PersistedHostState, bool),
    StateError,
>)
    ensures
        match out {
            Ok((after, write)) => readable(state_found(found)) && write == needs_write(
                state_found(found),
                endpoint_id@,
            ) && exists|fresh: Seq<char>|
                fresh.len() == 64 && auth::is_hex_text(fresh) && after@ == #[trigger] loaded(
                    state_found(found),
                    endpoint_id@,
                    fresh,
                ),
            Err(e) => !readable(state_found(found)) && e == StateError::UnsupportedSchema(
                found->Some_0.schema_version,
            ),
        },
{
    let fresh = auth::generate_secret();
    let ghost secret = fresh@;
    let ghost before = state_found(found);
    let out = load_with(found, endpoint_id, fresh);
    assert(out is Ok ==> out->Ok_0.0@ == loaded(before, endpoint_id@, secret));
    out
}

/// State with another secret for one service, under the host's endpoint ID.
pub open spec fn rotated(
    state: HostStateView,
    service: Seq<char>,
    endpoint_id: Seq<char>,
    fresh: Seq<char>,
) -> HostStateView {
    HostStateView {
        endpoint_id,
        service_secrets: state.service_secrets.insert(service, fresh),
        ..state
    }
}

/// Replaces the secret of one service by a given one.
pub fn rotate_with(
    state: &mut PersistedHostState,
    service: &str,
    endpoint_id: &str,
    fresh: &str,
) -> (out: Result<(), StateError>)
    ensures
        old(state)@.service_secrets.dom().contains(service@) ==> out is Ok && final(state)@
            == rotated(old(state)@, service@, endpoint_id@, fresh@),
        !old(state)@.service_secrets.dom().contains(service@) ==> out == Err::<(), StateError>(
            StateError::UnknownService,
        ) && final(state)@ == old(state)@,
{
    if !state.service_secrets.contains_key(service) {
        return Err(StateError::UnknownService);
    }
    state.endpoint_id = endpoint_id.to_owned();
    state.service_secrets.insert(service, fresh);
    Ok(())
}

/// Replaces the secret of one service by a random one, which is returned. It is
/// another one than any service had.
pub fn rotate_secret(state: &mut PersistedHostState, service: &str, endpoint_id: &str) -> (out: Result<
    String,
    StateError,
>)
    ensures
        old(state)@.service_secrets.dom().contains(service@) ==> (out matches Ok(fresh)
            && fresh@.len() == 64 && auth::is_hex_text(fresh@) && final(state)@ == rotated(
            old(state)@,
            service@,
            endpoint_id@,
            fresh@,
        )),
        !old(state)@.service_secrets.dom().contains(service@) ==> out == Err::<String, StateError>(
            StateError::UnknownService,
        ) && final(state)@ == old(state)@,
        out matches Ok(fresh) ==> fresh@ != old(state)@.service_secrets[service@],
        out matches Ok(fresh) ==> forall|name: Seq<char>| #[trigger]
            old(state)@.service_secrets.dom().contains(name) ==> fresh@
                != old(state)@.service_secrets[name],
{
    let taken = state.service_secrets.all_secrets();
    let fresh = auth::generate_secret_unlike(&taken);
    match rotate_with(state, service, endpoint_id, fresh.as_str()) {
        Ok(()) => Ok(fresh),
        Err(e) => Err(e),
    }
}

// ---------------------------------------------------------------------------
// Private files
// ---------------------------------------------------------------------------

/// Whether permission bits let anyone but the owner use a file.
pub open spec fn shared_mode(mode: u32) -> bool {
    mode % 0o100 != 0
}

/// The permissions of a private file: its owner may read and write it.
pub const PRIVATE_MODE: u32 = 0o600;

/// Whether permission bits let anyone but the owner use a file.
pub fn is_shared_mode(mode: u32) -> (r: bool)
    ensures
        r == shared_mode(mode),
{
    assert(mode & 0o077 == mode % 0o100) by (bit_vector);
    mode & 0o077 != 0
}

/// The permissions that a file of state has to be given: none if it is private
/// already.
pub fn ensure_private_file(mode: u32) -> (out: Option<u32>)
    ensures
        out == if shared_mode(mode) {
            Some(PRIVATE_MODE)
        } else {
            None
        },
{
    if is_shared_mode(mode) {
        Some(PRIVATE_MODE)
    } else {
        None
    }
}

/// A file that was secured needs no securing.
pub proof fn law_private_mode_is_private()
    ensures
        !shared_mode(PRIVATE_MODE),
{
}

// ---------------------------------------------------------------------------
// Secrets at host start
// ---------------------------------------------------------------------------

/// Whether a service of that name is configured.
pub open spec fn configured(services: Seq<ServiceConfig>, name: Seq<char>) -> bool {
    exists|i: int| 0 <= i < services.len() && (#[trigger] services[i]).name@ == name
}

/// Whether `after` are the secrets a host starts with: one for each
/// configured service and for no other, those that it had unchanged.
pub open spec fn reconciled(
    before: Map<Seq<char>, Seq<char>>,
    services: Seq<ServiceConfig>,
    after: Map<Seq<char>, Seq<char>>,
) -> bool {
    &&& forall|name: Seq<char>| #[trigger]
        after.dom().contains(name) <==> configured(services, name)
    &&& forall|name: Seq<char>| #[trigger]
        after.dom().contains(name) && before.dom().contains(name) ==> after[name] == before[name]
}

/// The secrets a host starts with. The secret of a service that had none is
/// taken from `fresh`, by its position in the configuration.
pub open spec fn reconciliation(
    before: Map<Seq<char>, Seq<char>>,
    services: Seq<ServiceConfig>,
    fresh: Seq<Seq<char>>,
) -> Map<Seq<char>, Seq<char>>
    decreases services.len(),
{
    if services.len() == 0 {
        Map::empty()
    } else {
        let name = services.last().name@;
        let done = reconciliation(before, services.drop_last(), fresh);
        if done.dom().contains(name) {
            done
        } else if before.dom().contains(name) {
            done.insert(name, before[name])
        } else {
            done.insert(name, fresh[services.len() - 1])
        }
    }
}

proof fn lemma_configured(services: Seq<ServiceConfig>, name: Seq<char>)
    requires
        services.len() > 0,
    ensures
        configured(services, name) <==> configured(services.drop_last(), name)
            || services.last().name@ == name,
{
    let less = services.drop_last();
    if configured(services, name) {
        let k = choose|k: int| 0 <= k < services.len() && (#[trigger] services[k]).name@ == name;
        if k < less.len() {
            assert(less[k].name@ == name);
        }
    }
    if configured(less, name) {
        let k = choose|k: int| 0 <= k < less.len() && (#[trigger] less[k]).name@ == name;
        assert(services[k].name@ == name);
    }
    if services.last().name@ == name {
        assert(services[services.len() - 1].name@ == name);
    }
}

proof fn lemma_reconciliation(
    before: Map<Seq<char>, Seq<char>>,
    services: Seq<ServiceConfig>,
    fresh: Seq<Seq<char>>,
    name: Seq<char>,
)
    requires
        services.len() <= fresh.len(),
    ensures
        ({
            let after = reconciliation(before, services, fresh);
            &&& after.dom().contains(name) <==> configured(services, name)
            &&& after.dom().contains(name) ==> if before.dom().contains(name) {
                after[name] == before[name]
            } else {
                exists|i: int|
                    0 <= i < services.len() && (#[trigger] services[i]).name@ == name
                        && after[name] == fresh[i]
            }
        }),
    decreases services.len(),
{
    if services.len() > 0 {
        let less = services.drop_last();
        lemma_configured(services, name);
        lemma_reconciliation(before, less, fresh, name);
        if reconciliation(before, less, fresh).dom().contains(name) && !before.dom().contains(
            name,
        ) {
            let i = choose|i: int|
                0 <= i < less.len() && (#[trigger] less[i]).name@ == name && reconciliation(
                    before,
                    less,
                    fresh,
                )[name] == fresh[i];
            assert(services[i].name@ == name);
        }
        assert(services[services.len() - 1] == services.last());
    }
}

/// The secrets a host starts with, with given ones for the services that had
/// none.
pub fn reconcile_with(before: &ServiceSecrets, config: &Config, fresh: &Vec<String>) -> (after:
    ServiceSecrets)
    requires
        fresh@.len() == config.services@.len(),
    ensures
        after@ == reconciliation(before@, config.services@, text::texts(fresh@)),
{
    let mut after = ServiceSecrets::new();
    for i in 0..config.services.len()
        invariant
            fresh@.len() == config.services@.len(),
            after@ == reconciliation(
                before@,
                config.services@.take(i as int),
                text::texts(fresh@),
            ),
    {
        let name = config.services[i].name.as_str();
        proof {
            let next = config.services@.take(i + 1);
            assert(next.drop_last() =~= config.services@.take(i as int));
            assert(next.last().name@ == name@);
        }
        if !after.contains_key(name) {
            match before.get(name) {
                Some(secret) => after.insert(name, secret.as_str()),
                None => after.insert(name, fresh[i].as_str()),
            }
        }
    }
    assert(config.services@.take(config.services@.len() as int) =~= config.services@);
    after
}

/// The secrets a host starts with. A service that had none gets a random one,
/// which no other service has or had.
pub fn reconcile_service_secrets(before: &ServiceSecrets, config: &Config) -> (after: ServiceSecrets)
    ensures
        reconciled(before@, config.services@, after@),
        forall|name: Seq<char>| #[trigger]
            after@.dom().contains(name) && !before@.dom().contains(name) ==> after@[name].len() == 64
                && auth::is_hex_text(after@[name]),
        forall|name: Seq<char>, other: Seq<char>|
            #![trigger after@.dom().contains(name), after@.dom().contains(other)]
            after@.dom().contains(name) && after@.dom().contains(other) && name != other
                && !before@.dom().contains(name) ==> after@[name] != after@[other],
        forall|name: Seq<char>, other: Seq<char>|
            #![trigger after@.dom().contains(name), before@.dom().contains(other)]
            after@.dom().contains(name) && before@.dom().contains(other) && !before@.dom().contains(
                name,
            ) ==> after@[name] != before@[other],
{
    let mut fresh: Vec<String> = Vec::new();
    let mut taken = before.all_secrets();
    let ghost had = taken@;
    for i in 0..config.services.len()
        invariant
            fresh@.len() == i,
            taken@.len() == had.len() + i,
            forall|j: int| 0 <= j < had.len() ==> taken@[j] == had[j],
            forall|j: int| 0 <= j < i ==> taken@[had.len() + j]@ == (#[trigger] fresh@[j])@,
            forall|j: int|
                0 <= j < i ==> (#[trigger] fresh@[j])@.len() == 64 && auth::is_hex_text(fresh@[j]@),
            forall|j: int, k: int|
                0 <= j < i && 0 <= k < had.len() ==> (#[trigger] fresh@[j])@ != (
                #[trigger] had[k])@,
            forall|j: int, k: int|
                0 <= j < k < i ==> (#[trigger] fresh@[j])@ != (#[trigger] fresh@[k])@,
    {
        let secret = auth::generate_secret_unlike(&taken);
        proof {
            assert forall|k: int| 0 <= k < had.len() implies secret@ != (#[trigger] had[k])@ by {
                assert(taken@[k] == had[k]);
            }
            assert forall|j: int| 0 <= j < i implies secret@ != (#[trigger] fresh@[j])@ by {
                assert(taken@[had.len() + j]@ == fresh@[j]@);
            }
        }
        taken.push(secret.clone());
        fresh.push(secret);
    }
    let after = reconcile_with(before, config, &fresh);
    proof {
        let given = text::texts(fresh@);
        assert forall|name: Seq<char>| #[trigger] after@.dom().contains(name) <==> configured(
            config.services@,
            name,
        ) by {
            lemma_reconciliation(before@, config.services@, given, name);
        }
        assert forall|name: Seq<char>| #[trigger]
            after@.dom().contains(name) && before@.dom().contains(name) implies after@[name]
            == before@[name] by {
            lemma_reconciliation(before@, config.services@, given, name);
        }
        assert forall|name: Seq<char>| #[trigger]
            after@.dom().contains(name) && !before@.dom().contains(name) implies after@[name].len()
            == 64 && auth::is_hex_text(after@[name]) by {
            lemma_reconciliation(before@, config.services@, given, name);
            let i = choose|i: int|
                0 <= i < config.services@.len() && (#[trigger] config.services@[i]).name@ == name
                    && after@[name] == given[i];
            assert(given[i] == fresh@[i]@);
        }
        assert forall|name: Seq<char>, other: Seq<char>|
            #![trigger after@.dom().contains(name), before@.dom().contains(other)]
            after@.dom().contains(name) && before@.dom().contains(other) && !before@.dom().contains(
                name,
            ) implies after@[name] != before@[other] by {
            lemma_reconciliation(before@, config.services@, given, name);
            let i = choose|i: int|
                0 <= i < config.services@.len() && (#[trigger] config.services@[i]).name@ == name
                    && after@[name] == given[i];
            let k = choose|k: int| 0 <= k < had.len() && before@[other] == (#[trigger] had[k])@;
            assert(given[i] == fresh@[i]@);
            assert(fresh@[i]@ != had[k]@);
        }
        assert forall|name: Seq<char>, other: Seq<char>|
            #![trigger after@.dom().contains(name), after@.dom().contains(other)]
            after@.dom().contains(name) && after@.dom().contains(other) && name != other
                && !before@.dom().contains(name) implies after@[name] != after@[other] by {
            if before@.dom().contains(other) {
                assert(after@[name] != before@[other]);
            } else {
                lemma_reconciliation(before@, config.services@, given, name);
                lemma_reconciliation(before@, config.services@, given, other);
                let i = choose|i: int|
                    0 <= i < config.services@.len() && (#[trigger] config.services@[i]).name@
                        == name && after@[name] == given[i];
                let k = choose|k: int|
                    0 <= k < config.services@.len() && (#[trigger] config.services@[k]).name@
                        == other && after@[other] == given[k];
                assert(given[i] == fresh@[i]@ && given[k] == fresh@[k]@);
                assert(i != k);
                if i < k {
                    assert(fresh@[i]@ != fresh@[k]@);
                } else {
                    assert(fresh@[k]@ != fresh@[i]@);
                }
            }
        }
    }
    after
}

// ---------------------------------------------------------------------------
// Laws
// ---------------------------------------------------------------------------

/// A host that starts again finds the state it left and leaves it as it is:
/// the identity and the secrets persist.
pub proof fn law_state_persists(
    found: Option<HostStateView>,
    endpoint_id: Seq<char>,
    fresh: Seq<char>,
    later: Seq<char>,
)
    requires
        readable(found),
        !text::blank(fresh),
    ensures
        ({
            let state = loaded(found, endpoint_id, fresh);
            &&& known_schema(state.schema_version)
            &&& !needs_write(Some(state), endpoint_id)
            &&& loaded(Some(state), endpoint_id, later) == state
        }),
{
}

/// Loading never changes the secret of a service.
pub proof fn law_loading_keeps_service_secrets(
    state: HostStateView,
    endpoint_id: Seq<char>,
    fresh: Seq<char>,
)
    ensures
        loaded(Some(state), endpoint_id, fresh).service_secrets == state.service_secrets,
{
}

/// What does not have to be written is what was found.
pub proof fn law_unwritten_state_is_unchanged(
    state: HostStateView,
    endpoint_id: Seq<char>,
    fresh: Seq<char>,
)
    requires
        known_schema(state.schema_version),
        !needs_write(Some(state), endpoint_id),
    ensures
        loaded(Some(state), endpoint_id, fresh) == state,
{
}

/// Rotating one service replaces its secret and keeps those of all others.
pub proof fn law_rotation_is_scoped(
    state: HostStateView,
    service: Seq<char>,
    endpoint_id: Seq<char>,
    fresh: Seq<char>,
    other: Seq<char>,
)
    requires
        other != service,
    ensures
        ({
            let after = rotated(state, service, endpoint_id, fresh).service_secrets;
            &&& after.dom().contains(service) && after[service] == fresh
            &&& after.dom().contains(other) <==> state.service_secrets.dom().contains(other)
            &&& state.service_secrets.dom().contains(other) ==> after[other]
                == state.service_secrets[other]
        }),
{
}

/// Starting twice with the same services gives the same secrets.
pub proof fn law_reconciling_is_stable(
    before: Map<Seq<char>, Seq<char>>,
    services: Seq<ServiceConfig>,
    once: Map<Seq<char>, Seq<char>>,
    twice: Map<Seq<char>, Seq<char>>,
)
    requires
        reconciled(before, services, once),
        reconciled(once, services, twice),
    ensures
        twice == once,
{
    assert forall|name: Seq<char>| twice.dom().contains(name) <==> once.dom().contains(name) by {}
    assert forall|name: Seq<char>| once.dom().contains(name) implies twice[name] == once[name] by {
        assert(twice.dom().contains(name));
    }
    assert(twice =~= once);
}

/// A rotated secret survives the restart that puts it in force.
pub proof fn law_rotated_secret_is_loaded(
    state: HostStateView,
    service: Seq<char>,
    endpoint_id: Seq<char>,
    fresh: Seq<char>,
    services: Seq<ServiceConfig>,
    after: Map<Seq<char>, Seq<char>>,
)
    requires
        configured(services, service),
        reconciled(
            rotated(state, service, endpoint_id, fresh).service_secrets,
            services,
            after,
        ),
    ensures
        after.dom().contains(service) && after[service] == fresh,
{
    assert(after.dom().contains(service));
}

/// Rotating changes nothing but the secret of the service and the endpoint ID,
/// which becomes that of the host.
pub proof fn law_rotation_keeps_the_rest(
    state: HostStateView,
    service: Seq<char>,
    endpoint_id: Seq<char>,
    fresh: Seq<char>,
)
    ensures
        ({
            let after = rotated(state, service, endpoint_id, fresh);
            &&& after.endpoint_id == endpoint_id
            &&& after.attach_secret == state.attach_secret
            &&& after.schema_version == state.schema_version
        }),
{
}

/// A host runs under its own endpoint ID and with the current schema. It keeps
/// the secrets that it found, but for a blank one of its own, and starts
/// without services if it found nothing.
pub proof fn law_loaded_state(
    found: Option<HostStateView>,
    endpoint_id: Seq<char>,
    fresh: Seq<char>,
)
    ensures
        ({
            let state = loaded(found, endpoint_id, fresh);
            &&& state.schema_version == 2
            &&& state.endpoint_id == endpoint_id
            &&& match found {
                Some(host) => {
                    &&& state.service_secrets == host.service_secrets
                    &&& text::blank(host.attach_secret) ==> state.attach_secret == fresh
                    &&& !text::blank(host.attach_secret) ==> state.attach_secret
                        == host.attach_secret
                },
                None => state.attach_secret == fresh && forall|name: Seq<char>|
                    !state.service_secrets.dom().contains(name),
            }
        }),
{
}

/// State is written exactly when a host found none, or runs with something
/// else than it found.
pub proof fn law_changed_state_is_written(
    found: Option<HostStateView>,
    endpoint_id: Seq<char>,
    fresh: Seq<char>,
)
    requires
        readable(found),
        !text::blank(fresh),
    ensures
        needs_write(found, endpoint_id) <==> found != Some(loaded(found, endpoint_id, fresh)),
{
}

/// The state of another schema than the first two is not used.
pub proof fn law_readable_state(found: Option<HostStateView>)
    ensures
        readable(found) <==> match found {
            Some(state) => 1 <= state.schema_version <= 2,
            None => true,
        },
{
}

/// A repair gives state the endpoint ID of the host and a secret where its own
/// is blank, keeps the rest, and is reported exactly when it changes anything.
pub proof fn law_repair(state: HostStateView, endpoint_id: Seq<char>, fresh: Seq<char>)
    requires
        !text::blank(fresh),
    ensures
        ({
            let after = repaired(state, endpoint_id, fresh);
            &&& after.endpoint_id == endpoint_id
            &&& after.service_secrets == state.service_secrets
            &&& after.schema_version == state.schema_version
            &&& !text::blank(state.attach_secret) ==> after.attach_secret == state.attach_secret
            &&& text::blank(state.attach_secret) ==> after.attach_secret == fresh
            &&& needs_repair(state, endpoint_id) <==> after != state
        }),
{
}

/// Of several secrets for one name in a list, the last counts. A name has a
/// secret exactly if it is in the list.
pub proof fn law_last_secret_counts(entries: Seq<(String, String)>, i: int, name: Seq<char>)
    requires
        0 <= i < entries.len(),
        forall|j: int| i < j < entries.len() ==> (#[trigger] entries[j]).0@ != entries[i].0@,
    ensures
        secrets_in(entries).dom().contains(entries[i].0@),
        secrets_in(entries)[entries[i].0@] == entries[i].1@,
        secrets_in(entries).dom().contains(name) <==> exists|j: int|
            0 <= j < entries.len() && (#[trigger] entries[j]).0@ == name,
    decreases entries.len(),
{
    lemma_secret_in(entries, name);
    if i < entries.len() - 1 {
        let front = entries.drop_last();
        assert(entries[entries.len() - 1].0@ != entries[i].0@);
        assert forall|j: int| i < j < front.len() implies (#[trigger] front[j]).0@
            != front[i].0@ by {
            assert(front[j] == entries[j]);
        }
        law_last_secret_counts(front, i, name);
        assert(front[i] == entries[i]);
    }
}

/// A host starts with a secret for each configured service and for no other: a
/// service that had a secret keeps it, and another one gets the one at its
/// place.
pub proof fn law_reconciliation(
    before: Map<Seq<char>, Seq<char>>,
    services: Seq<ServiceConfig>,
    fresh: Seq<Seq<char>>,
    i: int,
    name: Seq<char>,
)
    requires
        services.len() <= fresh.len(),
        0 <= i < services.len(),
        forall|j: int| 0 <= j < i ==> (#[trigger] services[j]).name@ != services[i].name@,
    ensures
        ({
            let after = reconciliation(before, services, fresh);
            let own = services[i].name@;
            &&& after.dom().contains(own)
            &&& before.dom().contains(own) ==> after[own] == before[own]
            &&& !before.dom().contains(own) ==> after[own] == fresh[i]
            &&& after.dom().contains(name) <==> exists|j: int|
                0 <= j < services.len() && (#[trigger] services[j]).name@ == name
        }),
    decreases services.len(),
{
    let own = services[i].name@;
    lemma_reconciliation(before, services, fresh, name);
    lemma_reconciliation(before, services, fresh, own);
    assert(services[i].name@ == own);
    let less = services.drop_last();
    if i < less.len() {
        assert(less[i] == services[i]);
        assert forall|j: int| 0 <= j < i implies (#[trigger] less[j]).name@ != less[i].name@ by {
            assert(less[j] == services[j]);
        }
        law_reconciliation(before, less, fresh, i, name);
    } else {
        lemma_reconciliation(before, less, fresh, own);
        if configured(less, own) {
            let j = choose|j: int| 0 <= j < less.len() && (#[trigger] less[j]).name@ == own;
            assert(services[j].name@ == own);
        }
    }
}

/// A file is shared exactly if a bit for the group or for others is set.
pub proof fn law_shared_mode(mode: u32)
    ensures
        shared_mode(mode) <==> mode & 0o077 != 0,
{
    assert(mode & 0o077 == mode % 0o100) by (bit_vector);
}

/// The secrets that a host starts with are those of its configured services,
/// and where it had one it has the same.
pub proof fn law_reconciled_secrets(
    before: Map<Seq<char>, Seq<char>>,
    services: Seq<ServiceConfig>,
    after: Map<Seq<char>, Seq<char>>,
    name: Seq<char>,
)
    requires
        reconciled(before, services, after),
    ensures
        after.dom().contains(name) <==> exists|i: int|
            0 <= i < services.len() && (#[trigger] services[i]).name@ == name,
        after.dom().contains(name) && before.dom().contains(name) ==> after[name] == before[name],
{
    assert(after.dom().contains(name) <==> configured(services, name));
}

} // verus!
