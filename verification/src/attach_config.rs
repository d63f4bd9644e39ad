//! The configuration of an attachment: several services of one host, each with
//! its own local listener.

use crate::capability::{self, Capability, CapabilityProblem, CapabilityView};
use crate::net::{IpAddress, SocketAddress};
use crate::text;
use vstd::prelude::*;

verus! {

/// The most services of one attachment.
pub const MAX_CONFIGURED_SERVICES: usize = 128;

/// One service of an attachment.
#[derive(Debug)]
pub struct AttachServiceConfig {
    pub capability: String,
    pub listen_port: u16,
}

/// An attachment to several services of one host.
#[derive(Debug)]
pub struct AttachConfig {
    pub host_id: String,
    pub direct_address: Option<SocketAddress>,
    pub listen_host: IpAddress,
    pub services: Vec<AttachServiceConfig>,
}

/// A service of an attachment, ready to be listened for.
#[derive(Debug)]
pub struct AttachmentConfig {
    pub capability: Capability,
    pub listen: SocketAddress,
}

/// What is wrong with one service of an attachment.
#[derive(Debug, Clone, Copy, PartialEq, Eq, Structural)]
pub enum AttachProblem {
    /// The capability cannot be read.
    InvalidCapability,
    /// An earlier capability is for the same service.
    DuplicateService,
    /// An earlier service listens on the same port.
    DuplicatePort,
}

/// Why the configuration of an attachment is refused.
#[derive(Debug, Clone, Copy, PartialEq, Eq, Structural)]
pub enum AttachConfigError {
    EmptyHostId,
    NoServices,
    TooManyServices,
    ZeroPort,
    /// The service at `index` is the first with a problem.
    Service { index: usize, problem: AttachProblem },
}

/// The message for an error of a configuration. It tells the name of a service
/// and a port at most, and never a secret.
pub open spec fn error_text(config: AttachConfig, error: AttachConfigError) -> Seq<char> {
    match error {
        AttachConfigError::EmptyHostId => "attachment configuration host_id cannot be empty"@,
        AttachConfigError::NoServices =>
            "attachment configuration must define at least one service"@,
        AttachConfigError::TooManyServices => "attachment configuration cannot define more than "@
            + text::decimal_digits(MAX_CONFIGURED_SERVICES as nat) + " services"@,
        AttachConfigError::ZeroPort => "attachment listen port cannot be zero"@,
        AttachConfigError::Service { index, problem } => match problem {
            AttachProblem::InvalidCapability => "invalid capability for attachment service "@
                + text::decimal_digits((index + 1) as nat),
            AttachProblem::DuplicateService => "duplicate attachment service \""@ + name_at(
                config.services@,
                index as int,
            ) + "\""@,
            AttachProblem::DuplicatePort => "duplicate attachment listen port "@
                + text::decimal_digits(config.services@[index as int].listen_port as nat),
        },
    }
}

/// Whether an error is one that a configuration can have.
pub open spec fn error_of(config: AttachConfig, error: AttachConfigError) -> bool {
    error matches AttachConfigError::Service { index, problem } ==> index < config.services@.len()
        && attach_problem(config.services@, index as int) == Some(problem)
}

impl AttachConfigError {
    /// The message for an error of a configuration.
    pub fn message(&self, config: &AttachConfig) -> (out: String)
        requires
            error_of(*config, *self),
        ensures
            out@ == error_text(*config, *self),
    {
        match self {
            AttachConfigError::EmptyHostId => {
                "attachment configuration host_id cannot be empty".to_owned()
            },
            AttachConfigError::NoServices => {
                "attachment configuration must define at least one service".to_owned()
            },
            AttachConfigError::TooManyServices => {
                let mut out = "attachment configuration cannot define more than ".to_owned();
                out.append(text::decimal(MAX_CONFIGURED_SERVICES as u64).as_str());
                out.append(" services");
                out
            },
            AttachConfigError::ZeroPort => "attachment listen port cannot be zero".to_owned(),
            AttachConfigError::Service { index, problem } => {
                let service = &config.services[*index];
                match problem {
                    AttachProblem::InvalidCapability => {
                        let mut out = "invalid capability for attachment service ".to_owned();
                        assert(config.services.len() <= usize::MAX);
                        let place: usize = *index + 1;
                        out.append(text::decimal(place as u64).as_str());
                        out
                    },
                    AttachProblem::DuplicateService => {
                        let mut out = "duplicate attachment service \"".to_owned();
                        if let Ok(capability) = capability::parse(service.capability.as_str()) {
                            out.append(capability.service.as_str());
                        }
                        out.append("\"");
                        out
                    },
                    AttachProblem::DuplicatePort => {
                        let mut out = "duplicate attachment listen port ".to_owned();
                        out.append(text::decimal(service.listen_port as u64).as_str());
                        out
                    },
                }
            },
        }
    }
}

/// What the capability of the service at `i` means.
pub open spec fn capability_at(services: Seq<AttachServiceConfig>, i: int) -> Result<
    CapabilityView,
    CapabilityProblem,
> {
    capability::reading(services[i].capability@)
}

/// The name of the service that the capability at `i` is for.
pub open spec fn name_at(services: Seq<AttachServiceConfig>, i: int) -> Seq<char> {
    capability_at(services, i)->Ok_0.service
}

/// What is wrong with the service at `i`.
pub open spec fn attach_problem(services: Seq<AttachServiceConfig>, i: int) -> Option<AttachProblem> {
    if capability_at(services, i) is Err {
        Some(AttachProblem::InvalidCapability)
    } else if exists|j: int| 0 <= j < i && #[trigger] name_at(services, j) == name_at(services, i) {
        Some(AttachProblem::DuplicateService)
    } else if exists|j: int|
        0 <= j < i && (#[trigger] services[j]).listen_port == services[i].listen_port {
        Some(AttachProblem::DuplicatePort)
    } else {
        None
    }
}

/// Whether the services at the first `n` places have no problem.
pub open spec fn attachable(services: Seq<AttachServiceConfig>, n: int) -> bool {
    forall|i: int| 0 <= i < n ==> #[trigger] attach_problem(services, i) is None
}

/// Whether `attachments` are those of the first services, in order.
pub open spec fn attachments_of(
    config: AttachConfig,
    attachments: Seq<AttachmentConfig>,
) -> bool {
    forall|i: int|
        0 <= i < attachments.len() ==> capability_at(config.services@, i) == Ok::<
            CapabilityView,
            CapabilityProblem,
        >((#[trigger] attachments[i]).capability@) && attachments[i].listen == (SocketAddress {
            ip: config.listen_host,
            port: config.services@[i].listen_port,
            flowinfo: 0,
            scope_id: 0,
        })
}

/// Whether an attachment may run with a configuration.
pub open spec fn valid_config(config: AttachConfig) -> bool {
    &&& !text::blank(config.host_id@)
    &&& 0 < config.services@.len() <= MAX_CONFIGURED_SERVICES
    &&& forall|i: int|
        0 <= i < config.services@.len() ==> (#[trigger] config.services@[i]).listen_port != 0
    &&& attachable(config.services@, config.services@.len() as int)
}

/// Whether a service listens on port zero.
pub open spec fn has_zero_port(services: Seq<AttachServiceConfig>) -> bool {
    exists|i: int| 0 <= i < services.len() && (#[trigger] services[i]).listen_port == 0
}

/// The address on which local clients are served if none is configured.
pub fn default_listen_host() -> (out: IpAddress)
    ensures
        out matches IpAddress::V4(octets) && octets@ == seq![127u8, 0u8, 0u8, 1u8],
{
    let octets: [u8; 4] = [127, 0, 0, 1];
    assert(octets@ =~= seq![127u8, 0u8, 0u8, 1u8]);
    IpAddress::V4(octets)
}

/// The direct address of an attachment: that of the command line comes before
/// that of the configuration.
pub fn direct_address_of(given: Option<SocketAddress>, config: &AttachConfig) -> (out: Option<
    SocketAddress,
>)
    ensures
        out == if given is Some {
            given
        } else {
            config.direct_address
        },
{
    match given {
        Some(address) => Some(address),
        None => config.direct_address,
    }
}

impl AttachConfig {
    /// The services of the attachment, or the first problem among them.
    pub fn attachments(&self) -> (out: Result<Vec<AttachmentConfig>, AttachConfigError>)
        ensures
            match out {
                Ok(list) => {
                    &&& attachable(self.services@, self.services@.len() as int)
                    &&& list@.len() == self.services@.len()
                    &&& attachments_of(*self, list@)
                },
                Err(AttachConfigError::Service { index, problem }) => {
                    &&& index < self.services@.len()
                    &&& attach_problem(self.services@, index as int) == Some(problem)
                    &&& attachable(self.services@, index as int)
                },
                Err(_) => false,
            },
    {
        let mut list: Vec<AttachmentConfig> = Vec::new();
        for i in 0..self.services.len()
            invariant
                list@.len() == i,
                attachable(self.services@, i as int),
                attachments_of(*self, list@),
        {
            let service = &self.services[i];
            let capability = match capability::parse(service.capability.as_str()) {
                Ok(capability) => capability,
                Err(_) => {
                    return Err(
                        AttachConfigError::Service {
                            index: i,
                            problem: AttachProblem::InvalidCapability,
                        },
                    );
                },
            };
            for j in 0..i
                invariant
                    i < self.services@.len(),
                    list@.len() == i,
                    attachable(self.services@, i as int),
                    attachments_of(*self, list@),
                    capability_at(self.services@, i as int) == Ok::<
                        CapabilityView,
                        CapabilityProblem,
                    >(capability@),
                    forall|k: int|
                        0 <= k < j ==> #[trigger] name_at(self.services@, k) != name_at(
                            self.services@,
                            i as int,
                        ),
            {
                assert(list@[j as int].capability@ == capability_at(self.services@, j as int)->Ok_0);
                if text::same(list[j].capability.service.as_str(), capability.service.as_str()) {
                    assert(name_at(self.services@, j as int) == name_at(self.services@, i as int));
                    return Err(
                        AttachConfigError::Service {
                            index: i,
                            problem: AttachProblem::DuplicateService,
                        },
                    );
                }
            }
            for j in 0..i
                invariant
                    i < self.services@.len(),
                    attachable(self.services@, i as int),
                    capability_at(self.services@, i as int) is Ok,
                    forall|k: int|
                        0 <= k < i ==> #[trigger] name_at(self.services@, k) != name_at(
                            self.services@,
                            i as int,
                        ),
                    forall|k: int|
                        0 <= k < j ==> (#[trigger] self.services@[k]).listen_port
                            != self.services@[i as int].listen_port,
            {
                if self.services[j].listen_port == self.services[i].listen_port {
                    return Err(
                        AttachConfigError::Service {
                            index: i,
                            problem: AttachProblem::DuplicatePort,
                        },
                    );
                }
            }
            let listen = SocketAddress::new(self.listen_host, service.listen_port);
            list.push(AttachmentConfig { capability, listen });
        }
        Ok(list)
    }

    /// Checks the rules of a configuration.
    pub fn validate(&self) -> (out: Result<(), AttachConfigError>)
        ensures
            out is Ok <==> valid_config(*self),
            match out {
                Ok(()) => true,
                Err(AttachConfigError::EmptyHostId) => text::blank(self.host_id@),
                Err(AttachConfigError::NoServices) => !text::blank(self.host_id@)
                    && self.services@.len() == 0,
                Err(AttachConfigError::TooManyServices) => !text::blank(self.host_id@)
                    && self.services@.len() > MAX_CONFIGURED_SERVICES,
                Err(AttachConfigError::ZeroPort) => !text::blank(self.host_id@) && 0
                    < self.services@.len() <= MAX_CONFIGURED_SERVICES && has_zero_port(
                    self.services@,
                ),
                Err(AttachConfigError::Service { index, problem }) => {
                    &&& !text::blank(self.host_id@)
                    &&& 0 < self.services@.len() <= MAX_CONFIGURED_SERVICES
                    &&& !has_zero_port(self.services@)
                    &&& index < self.services@.len()
                    &&& attach_problem(self.services@, index as int) == Some(problem)
                    &&& attachable(self.services@, index as int)
                },
            },
    {
        if text::is_blank(self.host_id.as_str()) {
            return Err(AttachConfigError::EmptyHostId);
        }
        if self.services.len() == 0 {
            return Err(AttachConfigError::NoServices);
        }
        if self.services.len() > MAX_CONFIGURED_SERVICES {
            return Err(AttachConfigError::TooManyServices);
        }
        for i in 0..self.services.len()
            invariant
                0 < self.services@.len() <= MAX_CONFIGURED_SERVICES,
                !text::blank(self.host_id@),
                forall|j: int| 0 <= j < i ==> (#[trigger] self.services@[j]).listen_port != 0,
        {
            if self.services[i].listen_port == 0 {
                assert(self.services@[i as int].listen_port == 0);
                return Err(AttachConfigError::ZeroPort);
            }
        }
        match self.attachments() {
            Ok(_) => Ok(()),
            Err(e) => Err(e),
        }
    }
}

/// In a valid configuration all capabilities can be read, no two are for the
/// same service, and no two services listen on the same port or on port zero.
pub proof fn law_valid_attachments(config: AttachConfig, i: int, j: int)
    requires
        valid_config(config),
        0 <= i < j < config.services@.len(),
    ensures
        capability_at(config.services@, i) is Ok,
        capability_at(config.services@, j) is Ok,
        name_at(config.services@, i) != name_at(config.services@, j),
        config.services@[i].listen_port != config.services@[j].listen_port,
        config.services@[i].listen_port != 0,
{
    assert(attach_problem(config.services@, i) is None);
    assert(attach_problem(config.services@, j) is None);
}

/// What a valid configuration is turned into: one listener for each service,
/// all on the configured host, no two on the same address.
pub proof fn law_listeners_are_distinct(
    config: AttachConfig,
    attachments: Seq<AttachmentConfig>,
    i: int,
    j: int,
)
    requires
        valid_config(config),
        attachments.len() == config.services@.len(),
        attachments_of(config, attachments),
        0 <= i < j < attachments.len(),
    ensures
        attachments[i].listen.ip == config.listen_host,
        attachments[i].listen != attachments[j].listen,
        attachments[i].capability.service@ != attachments[j].capability.service@,
{
    law_valid_attachments(config, i, j);
    assert(capability_at(config.services@, i)->Ok_0 == attachments[i].capability@);
    assert(capability_at(config.services@, j)->Ok_0 == attachments[j].capability@);
}

/// The message for an error tells no secret: it is the same for every
/// configuration with the same names and ports.
pub proof fn law_messages_tell_no_secret(
    a: AttachConfig,
    b: AttachConfig,
    error: AttachConfigError,
)
    requires
        a.services@.len() == b.services@.len(),
        forall|i: int|
            0 <= i < a.services@.len() ==> #[trigger] name_at(a.services@, i) == name_at(
                b.services@,
                i,
            ) && a.services@[i].listen_port == b.services@[i].listen_port,
        error_of(a, error),
    ensures
        error_text(a, error) == error_text(b, error),
{
    if let AttachConfigError::Service { index, problem } = error {
        assert(name_at(a.services@, index as int) == name_at(b.services@, index as int));
    }
}

/// A configuration is valid exactly if it names a host and one to 128 services,
/// if every capability can be read, and if no two services have the same name
/// or the same port, and none has port zero.
pub proof fn law_valid_config(config: AttachConfig)
    ensures
        valid_config(config) <==> {
            let services = config.services@;
            &&& !text::blank(config.host_id@)
            &&& 1 <= services.len() <= 128
            &&& forall|i: int|
                0 <= i < services.len() ==> (#[trigger] services[i]).listen_port != 0
                    && capability::reading(services[i].capability@) is Ok
            &&& forall|i: int, j: int|
                0 <= i < j < services.len() ==> (#[trigger] services[i]).listen_port != (
                #[trigger] services[j]).listen_port && capability::reading(
                    services[i].capability@,
                )->Ok_0.service != capability::reading(services[j].capability@)->Ok_0.service
        },
{
    let services = config.services@;
    if valid_config(config) {
        assert forall|i: int| 0 <= i < services.len() implies (#[trigger] services[i]).listen_port
            != 0 && capability::reading(services[i].capability@) is Ok by {
            assert(attach_problem(services, i) is None);
        }
        assert forall|i: int, j: int| 0 <= i < j < services.len() implies (
        #[trigger] services[i]).listen_port != (#[trigger] services[j]).listen_port
            && capability::reading(services[i].capability@)->Ok_0.service != capability::reading(
            services[j].capability@,
        )->Ok_0.service by {
            law_valid_attachments(config, i, j);
        }
    }
    if !text::blank(config.host_id@) && 1 <= services.len() <= 128 && (forall|i: int|
        0 <= i < services.len() ==> (#[trigger] services[i]).listen_port != 0
            && capability::reading(services[i].capability@) is Ok) && (forall|i: int, j: int|
        0 <= i < j < services.len() ==> (#[trigger] services[i]).listen_port != (
        #[trigger] services[j]).listen_port && capability::reading(
            services[i].capability@,
        )->Ok_0.service != capability::reading(services[j].capability@)->Ok_0.service) {
        assert forall|i: int| 0 <= i < services.len() implies #[trigger] attach_problem(
            services,
            i,
        ) is None by {
            assert(capability::reading(services[i].capability@) is Ok);
            assert forall|j: int| 0 <= j < i implies #[trigger] name_at(services, j) != name_at(
                services,
                i,
            ) by {
                assert(services[j].listen_port != services[i].listen_port);
            }
        }
    }
}

/// What is wrong with a service is its capability first, then that an earlier
/// one is for the same service, then that an earlier one has its port.
pub proof fn law_attach_problems(services: Seq<AttachServiceConfig>, i: int)
    requires
        0 <= i < services.len(),
    ensures
        ({
            let found = attach_problem(services, i);
            let readable = capability::reading(services[i].capability@) is Ok;
            let named = exists|j: int|
                0 <= j < i && capability::reading((#[trigger] services[j]).capability@)->Ok_0.service
                    == capability::reading(services[i].capability@)->Ok_0.service;
            let bound = exists|j: int|
                0 <= j < i && (#[trigger] services[j]).listen_port == services[i].listen_port;
            &&& found == Some(AttachProblem::InvalidCapability) <==> !readable
            &&& found == Some(AttachProblem::DuplicateService) <==> readable && named
            &&& found == Some(AttachProblem::DuplicatePort) <==> readable && !named && bound
            &&& found is None <==> readable && !named && !bound
        }),
{
    if exists|j: int| 0 <= j < i && #[trigger] name_at(services, j) == name_at(services, i) {
        let j = choose|j: int|
            0 <= j < i && #[trigger] name_at(services, j) == name_at(services, i);
        assert(capability::reading(services[j].capability@)->Ok_0.service == capability::reading(
            services[i].capability@,
        )->Ok_0.service);
    }
    if exists|j: int|
        0 <= j < i && capability::reading((#[trigger] services[j]).capability@)->Ok_0.service
            == capability::reading(services[i].capability@)->Ok_0.service {
        let j = choose|j: int|
            0 <= j < i && capability::reading((#[trigger] services[j]).capability@)->Ok_0.service
                == capability::reading(services[i].capability@)->Ok_0.service;
        assert(name_at(services, j) == name_at(services, i));
    }
}

/// Each listener is for the capability at its place, on the configured host and
/// the port at its place.
pub proof fn law_listeners_match_the_configuration(
    config: AttachConfig,
    attachments: Seq<AttachmentConfig>,
    i: int,
)
    requires
        attachments_of(config, attachments),
        0 <= i < attachments.len(),
    ensures
        attachments[i].listen.ip == config.listen_host,
        attachments[i].listen.port == config.services@[i].listen_port,
        capability::capability_text(
            attachments[i].capability.service@,
            attachments[i].capability.service_type,
            attachments[i].capability.secret@,
        ) == config.services@[i].capability@,
{
    assert(capability_at(config.services@, i) == Ok::<CapabilityView, CapabilityProblem>(
        attachments[i].capability@,
    ));
    capability::law_format_of_parse(config.services@[i].capability@);
}

/// A service listens on port zero exactly if one of the ports is zero.
pub proof fn law_zero_port(services: Seq<AttachServiceConfig>)
    ensures
        has_zero_port(services) <==> !forall|i: int|
            0 <= i < services.len() ==> (#[trigger] services[i]).listen_port > 0,
{
}

/// The message for a service tells which it is: an unreadable capability by its
/// place, counted from one, a repeated service by its name, and a repeated port
/// by its number.
pub proof fn law_messages_tell_the_service(config: AttachConfig, index: usize)
    requires
        index < config.services@.len(),
    ensures
        ({
            let services = config.services@;
            let unreadable = AttachConfigError::Service {
                index,
                problem: AttachProblem::InvalidCapability,
            };
            let repeated = AttachConfigError::Service {
                index,
                problem: AttachProblem::DuplicateService,
            };
            let bound = AttachConfigError::Service { index, problem: AttachProblem::DuplicatePort };
            &&& error_text(config, unreadable) == "invalid capability for attachment service "@
                + text::decimal_digits((index + 1) as nat)
            &&& error_text(config, repeated) == "duplicate attachment service \""@
                + capability::reading(services[index as int].capability@)->Ok_0.service + "\""@
            &&& error_text(config, bound) == "duplicate attachment listen port "@
                + text::decimal_digits(services[index as int].listen_port as nat)
        }),
{
}

} // verus!
