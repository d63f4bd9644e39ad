//! Rules of the command line.

use crate::capability::{self, CapabilityError, CapabilityProblem};
use crate::config::ServiceType;
use crate::net::{IpAddress, SocketAddress};
use crate::text;
use vstd::prelude::*;

verus! {

/// The port on which an attachment serves local clients by default.
pub const DEFAULT_ATTACH_PORT: u16 = 8765;

/// Why the arguments of `attach` are refused.
#[derive(Debug)]
pub enum AttachArgumentError {
    /// A configuration file was given together with other arguments.
    ConfigWithArguments,
    /// The host is missing.
    MissingHostId,
    /// The capability is missing.
    MissingCapability,
    /// A secret was given beside a complete capability.
    SecretBesideCapability,
    /// `--tcp` was given without a secret of its own.
    TcpWithoutSecret,
    /// The capability cannot be read.
    InvalidCapability(CapabilityError),
}

/// The content of an error.
pub enum ArgumentProblem {
    ConfigWithArguments,
    MissingHostId,
    MissingCapability,
    SecretBesideCapability,
    TcpWithoutSecret,
    InvalidCapability(CapabilityProblem),
}

impl View for AttachArgumentError {
    type V = ArgumentProblem;

    open spec fn view(&self) -> ArgumentProblem {
        match self {
            AttachArgumentError::ConfigWithArguments => ArgumentProblem::ConfigWithArguments,
            AttachArgumentError::MissingHostId => ArgumentProblem::MissingHostId,
            AttachArgumentError::MissingCapability => ArgumentProblem::MissingCapability,
            AttachArgumentError::SecretBesideCapability => ArgumentProblem::SecretBesideCapability,
            AttachArgumentError::TcpWithoutSecret => ArgumentProblem::TcpWithoutSecret,
            AttachArgumentError::InvalidCapability(e) => ArgumentProblem::InvalidCapability(e@),
        }
    }
}

/// The capability that the arguments of `attach` mean. In the older form the
/// service and the secret are given apart, and `tcp` tells the type.
pub open spec fn normalized(value: Seq<char>, legacy_secret: Option<Seq<char>>, legacy_tcp: bool) -> Result<
    Seq<char>,
    ArgumentProblem,
> {
    match legacy_secret {
        Some(secret) => if capability::reading(value) is Ok {
            Err(ArgumentProblem::SecretBesideCapability)
        } else {
            Ok(
                capability::capability_text(
                    value,
                    if legacy_tcp {
                        ServiceType::Tcp
                    } else {
                        ServiceType::Http
                    },
                    secret,
                ),
            )
        },
        None => if legacy_tcp {
            Err(ArgumentProblem::TcpWithoutSecret)
        } else {
            match capability::reading(value) {
                Ok(_) => Ok(value),
                Err(e) => Err(ArgumentProblem::InvalidCapability(e)),
            }
        },
    }
}

/// The characters of an optional text.
pub open spec fn optional_text(text: Option<String>) -> Option<Seq<char>> {
    match text {
        Some(text) => Some(text@),
        None => None,
    }
}

/// The capability that the arguments of `attach` mean.
pub fn normalize_capability(value: &str, legacy_secret: Option<String>, legacy_tcp: bool) -> (out:
    Result<String, AttachArgumentError>)
    ensures
        match out {
            Ok(text) => normalized(value@, optional_text(legacy_secret), legacy_tcp) == Ok::<
                Seq<char>,
                ArgumentProblem,
            >(text@),
            Err(e) => normalized(value@, optional_text(legacy_secret), legacy_tcp) == Err::<
                Seq<char>,
                ArgumentProblem,
            >(e@),
        },
{
    match legacy_secret {
        Some(secret) => {
            if capability::parse(value).is_ok() {
                return Err(AttachArgumentError::SecretBesideCapability);
            }
            let service_type = if legacy_tcp {
                ServiceType::Tcp
            } else {
                ServiceType::Http
            };
            Ok(capability::format(value, &service_type, secret.as_str()))
        },
        None => {
            if legacy_tcp {
                return Err(AttachArgumentError::TcpWithoutSecret);
            }
            match capability::parse(value) {
                Ok(_) => Ok(value.to_owned()),
                Err(e) => Err(AttachArgumentError::InvalidCapability(e)),
            }
        },
    }
}

/// Whether an address is the one on which clients are served by default.
pub open spec fn is_default_listen(listen: SocketAddress) -> bool {
    &&& listen.ip matches IpAddress::V4(octets) && octets@ == seq![127u8, 0u8, 0u8, 1u8]
    &&& listen.port == DEFAULT_ATTACH_PORT
    &&& listen.flowinfo == 0
    &&& listen.scope_id == 0
}

/// The address on which clients are served by default.
pub fn default_attach_listen() -> (out: SocketAddress)
    ensures
        is_default_listen(out),
{
    SocketAddress::new(crate::attach_config::default_listen_host(), DEFAULT_ATTACH_PORT)
}

/// The arguments of `attach`.
#[derive(Debug)]
pub struct AttachArguments {
    pub host_id: Option<String>,
    pub capability: Option<String>,
    pub legacy_secret: Option<String>,
    /// Whether a configuration file was given.
    pub config: bool,
    pub tcp: bool,
    pub listen: SocketAddress,
    pub http_timeout_secs: Option<u64>,
}

/// What `attach` attaches to.
#[derive(Debug)]
pub enum AttachMode {
    /// The services of the configuration file.
    Config,
    /// One service of one host.
    Single { host_id: String, capability: String },
}

/// Whether arguments are given that a configuration file excludes.
pub open spec fn excluded_by_config(arguments: AttachArguments) -> bool {
    ||| arguments.host_id is Some
    ||| arguments.capability is Some
    ||| arguments.legacy_secret is Some
    ||| arguments.tcp
    ||| arguments.http_timeout_secs is Some
    ||| !is_default_listen(arguments.listen)
}

/// What `attach` attaches to: the host and the capability, or nothing if that
/// is in a configuration file.
pub open spec fn attach_target(arguments: AttachArguments) -> Result<
    Option<(Seq<char>, Seq<char>)>,
    ArgumentProblem,
> {
    if arguments.config {
        if excluded_by_config(arguments) {
            Err(ArgumentProblem::ConfigWithArguments)
        } else {
            Ok(None)
        }
    } else {
        match (arguments.host_id, arguments.capability) {
            (None, _) => Err(ArgumentProblem::MissingHostId),
            (Some(_), None) => Err(ArgumentProblem::MissingCapability),
            (Some(host_id), Some(value)) => match normalized(
                value@,
                optional_text(arguments.legacy_secret),
                arguments.tcp,
            ) {
                Ok(capability) => Ok(Some((host_id@, capability))),
                Err(e) => Err(e),
            },
        }
    }
}

/// The content of what is attached to.
pub open spec fn mode_target(mode: AttachMode) -> Option<(Seq<char>, Seq<char>)> {
    match mode {
        AttachMode::Config => None,
        AttachMode::Single { host_id, capability } => Some((host_id@, capability@)),
    }
}

/// Decides what `attach` attaches to.
pub fn attach_mode(arguments: AttachArguments) -> (out: Result<AttachMode, AttachArgumentError>)
    ensures
        match out {
            Ok(mode) => attach_target(arguments) == Ok::<
                Option<(Seq<char>, Seq<char>)>,
                ArgumentProblem,
            >(mode_target(mode)),
            Err(e) => attach_target(arguments) == Err::<
                Option<(Seq<char>, Seq<char>)>,
                ArgumentProblem,
            >(e@),
        },
{
    if arguments.config {
        let default = default_attach_listen();
        let at_default = arguments.listen.same(&default);
        proof {
            if let (IpAddress::V4(a), IpAddress::V4(b)) = (arguments.listen.ip, default.ip) {
                assert(a@ == b@ ==> a =~= b);
            }
        }
        if arguments.host_id.is_some() || arguments.capability.is_some()
            || arguments.legacy_secret.is_some() || arguments.tcp
            || arguments.http_timeout_secs.is_some() || !at_default {
            return Err(AttachArgumentError::ConfigWithArguments);
        }
        return Ok(AttachMode::Config);
    }
    let host_id = match arguments.host_id {
        Some(host_id) => host_id,
        None => {
            return Err(AttachArgumentError::MissingHostId);
        },
    };
    let value = match arguments.capability {
        Some(value) => value,
        None => {
            return Err(AttachArgumentError::MissingCapability);
        },
    };
    match normalize_capability(value.as_str(), arguments.legacy_secret, arguments.tcp) {
        Ok(capability) => Ok(AttachMode::Single { host_id, capability }),
        Err(e) => Err(e),
    }
}

/// The command that attaches to a service.
pub open spec fn attach_command_text(
    host_id: Seq<char>,
    capability: Seq<char>,
    direct_address: Option<Seq<char>>,
) -> Seq<char> {
    "locho attach "@ + host_id + " "@ + capability + (match direct_address {
        Some(address) => " --direct-address "@ + address,
        None => Seq::empty(),
    })
}

/// The command that attaches to a service.
pub fn attach_command(host_id: &str, capability: &str, direct_address: Option<&str>) -> (out: String)
    ensures
        out@ == attach_command_text(
            host_id@,
            capability@,
            match direct_address {
                Some(address) => Some(address@),
                None => None,
            },
        ),
{
    let mut out = "locho attach ".to_owned();
    out.append(host_id);
    out.append(" ");
    out.append(capability);
    match direct_address {
        Some(address) => {
            out.append(" --direct-address ");
            out.append(address);
            assert(out@ =~= attach_command_text(host_id@, capability@, Some(address@)));
        },
        None => {
            assert(out@ =~= attach_command_text(host_id@, capability@, None));
        },
    }
    out
}

/// A capability in one piece is passed on as it is, and can be read.
pub proof fn law_capability_passes_unchanged(value: Seq<char>)
    ensures
        normalized(value, None, false) is Ok <==> capability::reading(value) is Ok,
        normalized(value, None, false) matches Ok(text) ==> text == value,
{
}

/// A service and a secret that are given apart mean the capability that is
/// made of both, and it can be read wherever the two can make one.
pub proof fn law_older_form_is_equivalent(service: Seq<char>, secret: Seq<char>, tcp: bool)
    requires
        crate::config::safe_name(service),
        secret.len() > 0,
        !secret.contains(':'),
    ensures
        normalized(service, Some(secret), tcp) matches Ok(text) && capability::reading(text)
            == Ok::<capability::CapabilityView, CapabilityProblem>(
            (capability::CapabilityView {
                service,
                service_type: if tcp {
                    ServiceType::Tcp
                } else {
                    ServiceType::Http
                },
                secret,
            }),
        ),
{
    capability::law_parse_of_format(
        service,
        if tcp {
            ServiceType::Tcp
        } else {
            ServiceType::Http
        },
        secret,
    );
    capability::law_name_is_no_capability(service);
}

/// Without a configuration file, a service and a secret that are given apart
/// are attached to as the capability of both, on the host that was named, and
/// as TCP exactly if `--tcp` is given.
pub proof fn law_older_form_is_attached(arguments: AttachArguments)
    requires
        !arguments.config,
        arguments.host_id is Some,
        arguments.capability is Some,
        arguments.legacy_secret is Some,
        crate::config::safe_name(arguments.capability->0@),
        arguments.legacy_secret->0@.len() > 0,
        !arguments.legacy_secret->0@.contains(':'),
    ensures
        ({
            let service = arguments.capability->0@;
            let secret = arguments.legacy_secret->0@;
            &&& attach_target(arguments) matches Ok(Some((host, text)))
            &&& host == arguments.host_id->0@
            &&& text == if arguments.tcp {
                service + ":tcp:"@ + secret
            } else {
                service + ":http:"@ + secret
            }
            &&& capability::reading(text) matches Ok(read)
            &&& read.service == service
            &&& read.secret == secret
            &&& read.service_type == ServiceType::Tcp <==> arguments.tcp
        }),
{
    law_older_form_is_equivalent(
        arguments.capability->0@,
        arguments.legacy_secret->0@,
        arguments.tcp,
    );
    capability::law_spelling(arguments.capability->0@, arguments.legacy_secret->0@);
}

/// Without a configuration file, a capability in one piece is attached to as it
/// is, on the host that was named, if it can be read; what is wrong with it is
/// told if it cannot.
pub proof fn law_capability_is_attached(arguments: AttachArguments)
    requires
        !arguments.config,
        arguments.host_id is Some,
        arguments.capability is Some,
        arguments.legacy_secret is None,
        !arguments.tcp,
    ensures
        match capability::reading(arguments.capability->0@) {
            Ok(_) => attach_target(arguments) == Ok::<
                Option<(Seq<char>, Seq<char>)>,
                ArgumentProblem,
            >(Some((arguments.host_id->0@, arguments.capability->0@))),
            Err(e) => attach_target(arguments) == Err::<
                Option<(Seq<char>, Seq<char>)>,
                ArgumentProblem,
            >(ArgumentProblem::InvalidCapability(e)),
        },
{
}

/// A configuration file is attached with exactly if nothing else is given that
/// says what to attach to or how: no host, no capability, no secret, no
/// `--tcp`, no timeout, and no other address than `127.0.0.1:8765`.
pub proof fn law_configuration_stands_alone(arguments: AttachArguments)
    requires
        arguments.config,
    ensures
        ({
            let alone = {
                &&& arguments.host_id is None
                &&& arguments.capability is None
                &&& arguments.legacy_secret is None
                &&& !arguments.tcp
                &&& arguments.http_timeout_secs is None
                &&& arguments.listen.ip matches IpAddress::V4(octets)
                &&& octets@ == seq![127u8, 0u8, 0u8, 1u8]
                &&& arguments.listen.port == 8765
                &&& arguments.listen.flowinfo == 0
                &&& arguments.listen.scope_id == 0
            };
            attach_target(arguments) == if alone {
                Ok::<Option<(Seq<char>, Seq<char>)>, ArgumentProblem>(None)
            } else {
                Err::<Option<(Seq<char>, Seq<char>)>, ArgumentProblem>(
                    ArgumentProblem::ConfigWithArguments,
                )
            }
        }),
{
}

/// Without a configuration file, the host has to be given first and then the
/// capability. A secret beside a complete capability, and `--tcp` without a
/// secret, are refused.
pub proof fn law_incomplete_arguments(arguments: AttachArguments)
    requires
        !arguments.config,
    ensures
        attach_target(arguments) == Err::<Option<(Seq<char>, Seq<char>)>, ArgumentProblem>(
            ArgumentProblem::MissingHostId,
        ) <==> arguments.host_id is None,
        attach_target(arguments) == Err::<Option<(Seq<char>, Seq<char>)>, ArgumentProblem>(
            ArgumentProblem::MissingCapability,
        ) <==> arguments.host_id is Some && arguments.capability is None,
        attach_target(arguments) == Err::<Option<(Seq<char>, Seq<char>)>, ArgumentProblem>(
            ArgumentProblem::SecretBesideCapability,
        ) <==> arguments.host_id is Some && arguments.capability is Some
            && arguments.legacy_secret is Some && capability::reading(arguments.capability->0@) is Ok,
        attach_target(arguments) == Err::<Option<(Seq<char>, Seq<char>)>, ArgumentProblem>(
            ArgumentProblem::TcpWithoutSecret,
        ) <==> arguments.host_id is Some && arguments.capability is Some
            && arguments.legacy_secret is None && arguments.tcp,
{
}

/// The words of a command are those of `locho attach`, the host, the
/// capability, and the direct address if there is one.
pub proof fn law_attach_command_words(
    host_id: Seq<char>,
    capability: Seq<char>,
    address: Seq<char>,
)
    requires
        !host_id.contains(' '),
        !capability.contains(' '),
        !address.contains(' '),
    ensures
        text::pieces(attach_command_text(host_id, capability, None), ' ') == seq![
            "locho"@,
            "attach"@,
            host_id,
            capability,
        ],
        text::pieces(attach_command_text(host_id, capability, Some(address)), ' ') == seq![
            "locho"@,
            "attach"@,
            host_id,
            capability,
            "--direct-address"@,
            address,
        ],
{
    reveal_strlit("locho");
    reveal_strlit("attach");
    reveal_strlit("locho attach ");
    reveal_strlit(" ");
    reveal_strlit("--direct-address");
    reveal_strlit(" --direct-address ");
    let s0 = "locho"@;
    let s1 = s0 + seq![' '] + "attach"@;
    let s2 = s1 + seq![' '] + host_id;
    let s3 = s2 + seq![' '] + capability;
    let s4 = s3 + seq![' '] + "--direct-address"@;
    let s5 = s4 + seq![' '] + address;
    text::lemma_pieces_whole(s0, ' ');
    text::lemma_pieces_extend(s0, ' ', "attach"@);
    text::lemma_pieces_extend(s1, ' ', host_id);
    text::lemma_pieces_extend(s2, ' ', capability);
    text::lemma_pieces_extend(s3, ' ', "--direct-address"@);
    text::lemma_pieces_extend(s4, ' ', address);
    assert(attach_command_text(host_id, capability, None) =~= s3);
    assert(attach_command_text(host_id, capability, Some(address)) =~= s5);
    assert(text::pieces(s3, ' ') =~= seq!["locho"@, "attach"@, host_id, capability]);
    assert(text::pieces(s5, ' ') =~= seq![
        "locho"@,
        "attach"@,
        host_id,
        capability,
        "--direct-address"@,
        address,
    ]);
}

/// Whatever stands for a service beside a secret, the two are put together with
/// the type between them, unless the first is a complete capability already.
pub proof fn law_older_form_is_put_together(arguments: AttachArguments)
    requires
        !arguments.config,
        arguments.host_id is Some,
        arguments.capability is Some,
        arguments.legacy_secret is Some,
        capability::reading(arguments.capability->0@) is Err,
    ensures
        attach_target(arguments) == Ok::<Option<(Seq<char>, Seq<char>)>, ArgumentProblem>(
            Some(
                (
                    arguments.host_id->0@,
                    arguments.capability->0@ + (if arguments.tcp {
                        ":tcp:"@
                    } else {
                        ":http:"@
                    }) + arguments.legacy_secret->0@,
                ),
            ),
        ),
{
    capability::law_spelling(arguments.capability->0@, arguments.legacy_secret->0@);
}

} // verus!
