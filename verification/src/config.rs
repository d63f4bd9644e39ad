//! The host's service configuration and its rules.

use crate::net::SocketAddress;
use crate::text;
use crate::upstream::{self, UpstreamUrl};
use vstd::prelude::*;

verus! {

/// What a service speaks.
#[derive(Debug, Clone, Copy, PartialEq, Eq, Structural)]
pub enum ServiceType {
    Http,
    Tcp,
}

/// The word that stands for a service type in configurations and capabilities.
pub open spec fn type_word(service_type: ServiceType) -> Seq<char> {
    match service_type {
        ServiceType::Http => "http"@,
        ServiceType::Tcp => "tcp"@,
    }
}

proof fn lemma_type_words_differ()
    ensures
        "http"@ != "tcp"@,
{
    reveal_strlit("http");
    reveal_strlit("tcp");
    assert("http"@.len() != "tcp"@.len());
}

impl ServiceType {
    /// The word that stands for the type.
    pub fn as_str(&self) -> (out: &'static str)
        ensures
            out@ == type_word(*self),
    {
        match self {
            ServiceType::Http => "http",
            ServiceType::Tcp => "tcp",
        }
    }

    /// The type that a word stands for.
    pub fn from_word(word: &str) -> (out: Option<ServiceType>)
        ensures
            out matches Some(t) ==> word@ == type_word(t),
            out is None ==> forall|t: ServiceType| word@ != #[trigger] type_word(t),
    {
        if text::same(word, "http") {
            Some(ServiceType::Http)
        } else if text::same(word, "tcp") {
            Some(ServiceType::Tcp)
        } else {
            None
        }
    }
}

/// Different types have different words.
pub proof fn law_type_words_are_distinct(a: ServiceType, b: ServiceType)
    ensures
        type_word(a) == type_word(b) ==> a == b,
{
    lemma_type_words_differ();
}

/// One configured service.
#[derive(Debug)]
pub struct ServiceConfig {
    pub name: String,
    pub service_type: ServiceType,
    /// Where an HTTP service forwards to.
    pub upstream: Option<UpstreamUrl>,
    /// Where a TCP service connects to.
    pub endpoint: Option<SocketAddress>,
    /// A PEM file with a CA certificate to trust for a private upstream.
    pub ca_cert: Option<String>,
}

/// The services of a host.
#[derive(Debug)]
pub struct Config {
    pub services: Vec<ServiceConfig>,
}

/// What is wrong with one service.
#[derive(Debug, Clone, Copy, PartialEq, Eq, Structural)]
pub enum ServiceProblem {
    /// The name is empty, too long, or holds a character that is not allowed.
    InvalidName,
    /// An earlier service has the same name.
    DuplicateName,
    /// An HTTP service defines an endpoint.
    HttpWithEndpoint,
    /// An HTTP service has no upstream.
    HttpWithoutUpstream,
    /// The upstream is no HTTPS URL with a host.
    UpstreamNotHttps,
    /// A TCP service defines an upstream.
    TcpWithUpstream,
    /// A TCP service has no endpoint.
    TcpWithoutEndpoint,
    /// The endpoint of a TCP service has port zero.
    ZeroPort,
}

/// Why a configuration is refused.
#[derive(Debug, Clone, Copy, PartialEq, Eq, Structural)]
pub enum ConfigError {
    NoServices,
    /// The service at `index` is the first with a problem.
    Service { index: usize, problem: ServiceProblem },
}

/// The longest service name.
pub const MAX_SERVICE_NAME_LEN: usize = 64;

/// Whether a character may stand in a service name.
pub open spec fn safe_char(c: char) -> bool {
    ||| 'a' <= c && c <= 'z'
    ||| 'A' <= c && c <= 'Z'
    ||| '0' <= c && c <= '9'
    ||| c == '-'
    ||| c == '_'
}

/// Whether a text may be the name of a service: one to 64 ASCII letters,
/// digits, `-`, and `_`.
pub open spec fn safe_name(name: Seq<char>) -> bool {
    &&& 0 < name.len() <= MAX_SERVICE_NAME_LEN
    &&& forall|i: int| 0 <= i < name.len() ==> safe_char(#[trigger] name[i])
}

/// Whether `name` may be the name of a service.
pub fn is_safe_service_name(name: &str) -> (r: bool)
    ensures
        r == safe_name(name@),
{
    let chars = text::chars_of(name);
    if chars.len() == 0 || chars.len() > MAX_SERVICE_NAME_LEN {
        return false;
    }
    for i in 0..chars.len()
        invariant
            chars@ == name@,
            forall|j: int| 0 <= j < i ==> safe_char(#[trigger] name@[j]),
    {
        let c = chars[i];
        if !(('a' <= c && c <= 'z') || ('A' <= c && c <= 'Z') || ('0' <= c && c <= '9') || c == '-'
            || c == '_') {
            assert(!safe_char(name@[i as int]));
            return false;
        }
    }
    true
}

/// Whether an earlier service has the name of the service at `i`.
pub open spec fn name_taken(services: Seq<ServiceConfig>, i: int) -> bool {
    exists|j: int| 0 <= j < i && #[trigger] services[j].name@ == services[i].name@
}

/// What is wrong with the target of a service.
pub open spec fn target_problem(service: ServiceConfig) -> Option<ServiceProblem> {
    match service.service_type {
        ServiceType::Http => if service.endpoint is Some {
            Some(ServiceProblem::HttpWithEndpoint)
        } else {
            match service.upstream {
                None => Some(ServiceProblem::HttpWithoutUpstream),
                Some(url) => if upstream::https_with_host(url@.url) {
                    None
                } else {
                    Some(ServiceProblem::UpstreamNotHttps)
                },
            }
        },
        ServiceType::Tcp => if service.upstream is Some {
            Some(ServiceProblem::TcpWithUpstream)
        } else {
            match service.endpoint {
                None => Some(ServiceProblem::TcpWithoutEndpoint),
                Some(address) => if address.port == 0 {
                    Some(ServiceProblem::ZeroPort)
                } else {
                    None
                },
            }
        },
    }
}

/// What is wrong with the service at `i`.
pub open spec fn service_problem(services: Seq<ServiceConfig>, i: int) -> Option<ServiceProblem> {
    if !safe_name(services[i].name@) {
        Some(ServiceProblem::InvalidName)
    } else if name_taken(services, i) {
        Some(ServiceProblem::DuplicateName)
    } else {
        target_problem(services[i])
    }
}

/// Whether a host may run with these services.
pub open spec fn valid_services(services: Seq<ServiceConfig>) -> bool {
    &&& services.len() > 0
    &&& forall|i: int| 0 <= i < services.len() ==> #[trigger] service_problem(services, i) is None
}

fn find_target_problem(service: &ServiceConfig) -> (out: Option<ServiceProblem>)
    ensures
        out == target_problem(*service),
{
    match service.service_type {
        ServiceType::Http => {
            if service.endpoint.is_some() {
                return Some(ServiceProblem::HttpWithEndpoint);
            }
            match &service.upstream {
                None => Some(ServiceProblem::HttpWithoutUpstream),
                Some(url) => {
                    if !text::same(url.scheme(), "https") || !url.has_host() {
                        Some(ServiceProblem::UpstreamNotHttps)
                    } else {
                        None
                    }
                },
            }
        },
        ServiceType::Tcp => {
            if service.upstream.is_some() {
                return Some(ServiceProblem::TcpWithUpstream);
            }
            match &service.endpoint {
                None => Some(ServiceProblem::TcpWithoutEndpoint),
                Some(address) => {
                    if address.port == 0 {
                        Some(ServiceProblem::ZeroPort)
                    } else {
                        None
                    }
                },
            }
        },
    }
}

fn find_name_taken(services: &Vec<ServiceConfig>, i: usize) -> (r: bool)
    requires
        i < services.len(),
    ensures
        r == name_taken(services@, i as int),
{
    for j in 0..i
        invariant
            i < services.len(),
            forall|k: int| 0 <= k < j ==> #[trigger] services@[k].name@ != services@[i as int].name@,
    {
        if services[j].name == services[i].name {
            assert(services@[j as int].name@ == services@[i as int].name@);
            return true;
        }
    }
    false
}

/// The position of the first service with the given name.
pub open spec fn position(services: Seq<ServiceConfig>, name: Seq<char>) -> Option<int>
    decreases services.len(),
{
    if services.len() == 0 {
        None
    } else {
        match position(services.drop_last(), name) {
            Some(i) => Some(i),
            None => if services.last().name@ == name {
                Some(services.len() - 1)
            } else {
                None
            },
        }
    }
}

/// The position of a name is that of the first service that has it.
pub proof fn lemma_position(services: Seq<ServiceConfig>, name: Seq<char>)
    ensures
        match position(services, name) {
            Some(i) => 0 <= i < services.len() && services[i].name@ == name && forall|j: int|
                0 <= j < i ==> (#[trigger] services[j]).name@ != name,
            None => forall|j: int|
                0 <= j < services.len() ==> (#[trigger] services[j]).name@ != name,
        },
    decreases services.len(),
{
    if services.len() > 0 {
        let front = services.drop_last();
        lemma_position(front, name);
        assert forall|j: int| 0 <= j < front.len() implies front[j] == #[trigger] services[j] by {}
    }
}

impl Config {
    /// Checks the rules of a configuration, service by service.
    pub fn validate(&self) -> (out: Result<(), ConfigError>)
        ensures
            match out {
                Ok(()) => valid_services(self.services@),
                Err(ConfigError::NoServices) => self.services@.len() == 0,
                Err(ConfigError::Service { index, problem }) => {
                    &&& index < self.services@.len()
                    &&& service_problem(self.services@, index as int) == Some(problem)
                    &&& forall|j: int|
                        0 <= j < index ==> #[trigger] service_problem(self.services@, j) is None
                },
            },
    {
        if self.services.len() == 0 {
            return Err(ConfigError::NoServices);
        }
        for i in 0..self.services.len()
            invariant
                forall|j: int|
                    0 <= j < i ==> #[trigger] service_problem(self.services@, j) is None,
        {
            let service = &self.services[i];
            let problem = if !is_safe_service_name(service.name.as_str()) {
                Some(ServiceProblem::InvalidName)
            } else if find_name_taken(&self.services, i) {
                Some(ServiceProblem::DuplicateName)
            } else {
                find_target_problem(service)
            };
            assert(problem == service_problem(self.services@, i as int));
            if let Some(problem) = problem {
                return Err(ConfigError::Service { index: i, problem });
            }
        }
        Ok(())
    }

    /// The position of the first service with the given name.
    pub fn find(&self, name: &str) -> (out: Option<usize>)
        ensures
            match out {
                Some(i) => i < self.services@.len() && position(self.services@, name@) == Some(
                    i as int,
                ),
                None => position(self.services@, name@) is None,
            },
    {
        proof {
            lemma_position(self.services@, name@);
        }
        for i in 0..self.services.len()
            invariant
                match position(self.services@, name@) {
                    Some(k) => 0 <= k < self.services@.len() && self.services@[k].name@ == name@
                        && forall|j: int|
                        0 <= j < k ==> (#[trigger] self.services@[j]).name@ != name@,
                    None => forall|j: int|
                        0 <= j < self.services@.len() ==> (#[trigger] self.services@[j]).name@
                            != name@,
                },
                forall|j: int| 0 <= j < i ==> (#[trigger] self.services@[j]).name@ != name@,
        {
            if text::same(self.services[i].name.as_str(), name) {
                return Some(i);
            }
        }
        None
    }

    /// The type of the service with the given name, if there is one.
    pub fn service_type(&self, name: &str) -> (out: Option<ServiceType>)
        ensures
            match position(self.services@, name@) {
                Some(i) => out == Some(self.services@[i].service_type),
                None => out is None,
            },
    {
        match self.find(name) {
            Some(i) => Some(self.services[i].service_type),
            None => None,
        }
    }
}

/// A valid configuration has at least one service. Its names are safe and no
/// two are the same, every HTTP service has an HTTPS upstream with a host and
/// no endpoint, and every TCP service has an endpoint with a port and no
/// upstream.
pub proof fn law_valid_services(services: Seq<ServiceConfig>)
    ensures
        valid_services(services) <==> {
            &&& services.len() > 0
            &&& forall|i: int| 0 <= i < services.len() ==> safe_name((#[trigger] services[i]).name@)
            &&& forall|i: int, j: int|
                0 <= i < j < services.len() ==> (#[trigger] services[i]).name@ != (
                #[trigger] services[j]).name@
            &&& forall|i: int|
                0 <= i < services.len() ==> match (#[trigger] services[i]).service_type {
                    ServiceType::Http => services[i].endpoint is None && services[i].upstream is Some
                        && upstream::https_with_host(services[i].upstream->0@.url),
                    ServiceType::Tcp => services[i].upstream is None && services[i].endpoint is Some
                        && services[i].endpoint->0.port != 0,
                }
        },
{
    if valid_services(services) {
        assert forall|i: int| 0 <= i < services.len() implies safe_name(
            (#[trigger] services[i]).name@,
        ) && target_problem(services[i]) is None && !name_taken(services, i) by {
            assert(service_problem(services, i) is None);
        }
        assert forall|i: int, j: int| 0 <= i < j < services.len() implies (#[trigger] services[i]).name@
            != (#[trigger] services[j]).name@ by {
            assert(!name_taken(services, j)) by {
                assert(safe_name(services[j].name@));
            }
        }
    }
}

/// What is wrong with a service is its name first, then that an earlier service
/// has the name, then what it forwards or connects to.
pub proof fn law_service_problems(services: Seq<ServiceConfig>, i: int)
    requires
        0 <= i < services.len(),
    ensures
        ({
            let service = services[i];
            let found = service_problem(services, i);
            let taken = exists|j: int|
                0 <= j < i && (#[trigger] services[j]).name@ == service.name@;
            let named = safe_name(service.name@) && !taken;
            let http = named && service.service_type == ServiceType::Http;
            let tcp = named && service.service_type == ServiceType::Tcp;
            &&& found == Some(ServiceProblem::InvalidName) <==> !safe_name(service.name@)
            &&& found == Some(ServiceProblem::DuplicateName) <==> safe_name(service.name@) && taken
            &&& found == Some(ServiceProblem::HttpWithEndpoint) <==> http && service.endpoint is Some
            &&& found == Some(ServiceProblem::HttpWithoutUpstream) <==> http
                && service.endpoint is None && service.upstream is None
            &&& found == Some(ServiceProblem::UpstreamNotHttps) <==> http
                && service.endpoint is None && service.upstream is Some && !(
            service.upstream->0@.url.scheme == "https"@ && service.upstream->0@.url.host is Some)
            &&& found == Some(ServiceProblem::TcpWithUpstream) <==> tcp && service.upstream is Some
            &&& found == Some(ServiceProblem::TcpWithoutEndpoint) <==> tcp
                && service.upstream is None && service.endpoint is None
            &&& found == Some(ServiceProblem::ZeroPort) <==> tcp && service.upstream is None
                && service.endpoint is Some && service.endpoint->0.port == 0
            &&& found is None <==> (http && service.endpoint is None && service.upstream is Some
                && service.upstream->0@.url.scheme == "https"@
                && service.upstream->0@.url.host is Some) || (tcp && service.upstream is None
                && service.endpoint is Some && service.endpoint->0.port != 0)
        }),
{
    assert(name_taken(services, i) <==> exists|j: int|
        0 <= j < i && (#[trigger] services[j]).name@ == services[i].name@) by {
        if name_taken(services, i) {
            let j = choose|j: int| 0 <= j < i && #[trigger] services[j].name@ == services[i].name@;
            assert(services[j].name@ == services[i].name@);
        }
    }
}

/// A name is safe exactly if it has one to 64 characters, each of which is an
/// ASCII digit, a letter of either case, a hyphen, or an underscore.
pub proof fn law_safe_names(name: Seq<char>)
    ensures
        safe_name(name) <==> 1 <= name.len() <= 64 && forall|i: int|
            0 <= i < name.len() ==> {
                let c = #[trigger] name[i] as int;
                0x30 <= c <= 0x39 || 0x41 <= c <= 0x5a || 0x61 <= c <= 0x7a || c == 0x2d || c
                    == 0x5f
            },
{
    assert forall|i: int| 0 <= i < name.len() implies (safe_char(#[trigger] name[i]) <==> ({
        let c = name[i] as int;
        0x30 <= c <= 0x39 || 0x41 <= c <= 0x5a || 0x61 <= c <= 0x7a || c == 0x2d || c == 0x5f
    })) by {}
}

/// The types are written `http` and `tcp`.
pub proof fn law_type_words()
    ensures
        type_word(ServiceType::Http) == "http"@,
        type_word(ServiceType::Tcp) == "tcp"@,
{
}

} // verus!
