//! Attachment capabilities: `<service>:<type>:<secret>`.

use crate::config::{self, ServiceType};
use crate::text;
use vstd::prelude::*;

verus! {

/// What a capability grants: one service, reached with one secret.
#[derive(Debug, PartialEq, Eq)]
pub struct Capability {
    pub service: String,
    pub service_type: ServiceType,
    pub secret: String,
}

/// The content of a capability.
pub struct CapabilityView {
    pub service: Seq<char>,
    pub service_type: ServiceType,
    pub secret: Seq<char>,
}

impl View for Capability {
    type V = CapabilityView;

    open spec fn view(&self) -> CapabilityView {
        CapabilityView {
            service: self.service@,
            service_type: self.service_type,
            secret: self.secret@,
        }
    }
}

impl Clone for Capability {
    fn clone(&self) -> (out: Capability)
        ensures
            out@ == self@,
    {
        Capability {
            service: self.service.clone(),
            service_type: self.service_type,
            secret: self.secret.clone(),
        }
    }
}

/// Why a text is no capability.
#[derive(Debug, PartialEq, Eq)]
pub enum CapabilityError {
    /// There are more than three parts, or the first is no service name.
    Malformed,
    /// The second part, which is given, is no service type.
    InvalidServiceType(String),
    /// The third part is empty or missing.
    EmptySecret,
}

/// The content of a `CapabilityError`.
pub enum CapabilityProblem {
    Malformed,
    InvalidServiceType(Seq<char>),
    EmptySecret,
}

impl View for CapabilityError {
    type V = CapabilityProblem;

    open spec fn view(&self) -> CapabilityProblem {
        match self {
            CapabilityError::Malformed => CapabilityProblem::Malformed,
            CapabilityError::InvalidServiceType(word) => CapabilityProblem::InvalidServiceType(
                word@,
            ),
            CapabilityError::EmptySecret => CapabilityProblem::EmptySecret,
        }
    }
}

/// The text of a capability.
pub open spec fn capability_text(
    service: Seq<char>,
    service_type: ServiceType,
    secret: Seq<char>,
) -> Seq<char> {
    service + seq![':'] + config::type_word(service_type) + seq![':'] + secret
}

/// Writes a capability.
pub fn format(service: &str, service_type: &ServiceType, secret: &str) -> (out: String)
    ensures
        out@ == capability_text(service@, *service_type, secret@),
{
    let mut out = String::from_str(service);
    out.push(':');
    out.append(service_type.as_str());
    out.push(':');
    out.append(secret);
    proof {
        assert(out@ =~= capability_text(service@, *service_type, secret@));
    }
    out
}

/// The `i`-th part of a capability text, empty if it has fewer.
pub open spec fn part(value: Seq<char>, i: int) -> Seq<char> {
    if i < text::pieces(value, ':').len() {
        text::pieces(value, ':')[i]
    } else {
        Seq::empty()
    }
}

/// The service type that a word stands for.
pub open spec fn word_type(word: Seq<char>) -> Option<ServiceType> {
    if word == "http"@ {
        Some(ServiceType::Http)
    } else if word == "tcp"@ {
        Some(ServiceType::Tcp)
    } else {
        None
    }
}

/// What a text means as a capability.
pub open spec fn reading(value: Seq<char>) -> Result<CapabilityView, CapabilityProblem> {
    if text::pieces(value, ':').len() > 3 || !config::safe_name(part(value, 0)) {
        Err(CapabilityProblem::Malformed)
    } else {
        match word_type(part(value, 1)) {
            None => Err(CapabilityProblem::InvalidServiceType(part(value, 1))),
            Some(service_type) => if part(value, 2).len() == 0 {
                Err(CapabilityProblem::EmptySecret)
            } else {
                Ok(
                    CapabilityView {
                        service: part(value, 0),
                        service_type,
                        secret: part(value, 2),
                    },
                )
            },
        }
    }
}

/// Reads a capability.
pub fn parse(value: &str) -> (out: Result<Capability, CapabilityError>)
    ensures
        match out {
            Ok(capability) => reading(value@) == Ok::<CapabilityView, CapabilityProblem>(
                capability@,
            ),
            Err(e) => reading(value@) == Err::<CapabilityView, CapabilityProblem>(e@),
        },
{
    let parts = text::split(value, ':');
    let ghost pieces = text::pieces(value@, ':');
    assert forall|i: int| 0 <= i < parts@.len() implies (#[trigger] parts@[i])@ == pieces[i] by {
        assert(text::texts(parts@)[i] == parts@[i]@);
    }
    assert(pieces.len() == parts@.len());
    let empty = String::new();
    if parts.len() > 3 || !config::is_safe_service_name(parts[0].as_str()) {
        return Err(CapabilityError::Malformed);
    }
    let word = if parts.len() > 1 {
        &parts[1]
    } else {
        &empty
    };
    let secret = if parts.len() > 2 {
        &parts[2]
    } else {
        &empty
    };
    assert(word@ == part(value@, 1));
    assert(secret@ == part(value@, 2));
    let service_type = match ServiceType::from_word(word.as_str()) {
        Some(service_type) => service_type,
        None => {
            proof {
                assert(word@ != config::type_word(ServiceType::Http));
                assert(word@ != config::type_word(ServiceType::Tcp));
            }
            return Err(CapabilityError::InvalidServiceType(word.clone()));
        },
    };
    proof {
        config::law_type_words_are_distinct(ServiceType::Http, ServiceType::Tcp);
    }
    if secret.as_str().is_empty() {
        return Err(CapabilityError::EmptySecret);
    }
    Ok(Capability { service: parts[0].clone(), service_type, secret: secret.clone() })
}

proof fn lemma_no_colon(service: Seq<char>, service_type: ServiceType)
    ensures
        config::safe_name(service) ==> !service.contains(':'),
        !config::type_word(service_type).contains(':'),
{
    if config::safe_name(service) && service.contains(':') {
        let i = choose|i: int| 0 <= i < service.len() && service[i] == ':';
        assert(config::safe_char(service[i]));
    }
    reveal_strlit("http");
    reveal_strlit("tcp");
    assert("http"@ =~= seq!['h', 't', 't', 'p']);
    assert("tcp"@ =~= seq!['t', 'c', 'p']);
}

/// Reading what was written gives it back: for every service name, type, and
/// secret that a capability can hold, and for no others.
pub proof fn law_parse_of_format(
    service: Seq<char>,
    service_type: ServiceType,
    secret: Seq<char>,
)
    ensures
        reading(capability_text(service, service_type, secret)) == Ok::<
            CapabilityView,
            CapabilityProblem,
        >(CapabilityView { service, service_type, secret }) <==> config::safe_name(service) && secret.len()
            > 0 && !secret.contains(':'),
{
    let value = capability_text(service, service_type, secret);
    lemma_no_colon(service, service_type);
    if config::safe_name(service) && secret.len() > 0 && !secret.contains(':') {
        text::lemma_pieces_whole(service, ':');
        text::lemma_pieces_extend(service, ':', config::type_word(service_type));
        text::lemma_pieces_extend(
            service + seq![':'] + config::type_word(service_type),
            ':',
            secret,
        );
        let pieces = text::pieces(value, ':');
        assert(pieces =~= seq![service, config::type_word(service_type), secret]);
        config::law_type_words_are_distinct(service_type, ServiceType::Http);
        config::law_type_words_are_distinct(service_type, ServiceType::Tcp);
    } else if reading(value) == Ok::<CapabilityView, CapabilityProblem>(
        CapabilityView { service, service_type, secret },
    ) {
        text::lemma_pieces_join(value, ':');
        if text::pieces(value, ':').len() > 2 {
            assert(!text::pieces(value, ':')[2].contains(':'));
        }
        assert(false);
    }
}

/// Writing what was read gives the text back: a capability has one spelling.
pub proof fn law_format_of_parse(value: Seq<char>)
    ensures
        reading(value) matches Ok(c) ==> capability_text(c.service, c.service_type, c.secret)
            == value,
{
    if let Ok(c) = reading(value) {
        let pieces = text::pieces(value, ':');
        text::lemma_pieces_join(value, ':');
        assert(pieces.len() == 3);
        assert(pieces =~= seq![c.service, config::type_word(c.service_type), c.secret]);
        reveal_with_fuel(text::joined, 3);
        assert(pieces.drop_last() =~= seq![c.service, config::type_word(c.service_type)]);
        assert(pieces.drop_last().drop_last() =~= seq![c.service]);
        assert(text::joined(pieces, seq![':']) =~= capability_text(
            c.service,
            c.service_type,
            c.secret,
        ));
    }
}

/// Whatever is read as a capability names a safe service and has a secret.
pub proof fn law_parsed_capability_is_safe(value: Seq<char>)
    ensures
        reading(value) matches Ok(c) ==> config::safe_name(c.service) && c.secret.len() > 0
            && !c.secret.contains(':'),
{
    text::lemma_pieces_join(value, ':');
    if let Ok(c) = reading(value) {
        assert(!text::pieces(value, ':')[2].contains(':'));
    }
}

/// The name of a service alone is no capability.
pub proof fn law_name_is_no_capability(service: Seq<char>)
    requires
        config::safe_name(service),
    ensures
        reading(service) is Err,
{
    if let Ok(c) = reading(service) {
        law_format_of_parse(service);
        lemma_no_colon(service, c.service_type);
        assert(capability_text(c.service, c.service_type, c.secret)[c.service.len() as int] == ':');
    }
}

/// A capability is spelled with the word of its type between the service and
/// the secret.
pub proof fn law_spelling(service: Seq<char>, secret: Seq<char>)
    ensures
        capability_text(service, ServiceType::Http, secret) == service + ":http:"@ + secret,
        capability_text(service, ServiceType::Tcp, secret) == service + ":tcp:"@ + secret,
{
    reveal_strlit("http");
    reveal_strlit("tcp");
    reveal_strlit(":http:");
    reveal_strlit(":tcp:");
    assert(capability_text(service, ServiceType::Http, secret) =~= service + ":http:"@ + secret);
    assert(capability_text(service, ServiceType::Tcp, secret) =~= service + ":tcp:"@ + secret);
}

/// What is read of parts with colons between them. Of three parts the first
/// has to be a name, the second the word of a type, and the third a secret,
/// and the first that is not is what is wrong; parts that are missing are
/// empty, and more than three are too many.
pub proof fn law_reading_of_parts(parts: Seq<Seq<char>>)
    requires
        parts.len() > 0,
        forall|i: int| 0 <= i < parts.len() ==> !(#[trigger] parts[i]).contains(':'),
    ensures
        ({
            let out = reading(text::joined(parts, seq![':']));
            let word = if parts.len() > 1 {
                parts[1]
            } else {
                Seq::empty()
            };
            let secret = if parts.len() > 2 {
                parts[2]
            } else {
                Seq::empty()
            };
            &&& parts.len() > 3 || !config::safe_name(parts[0]) <==> out
                == Err::<CapabilityView, CapabilityProblem>(CapabilityProblem::Malformed)
            &&& parts.len() <= 3 && config::safe_name(parts[0]) ==> {
                &&& word != "http"@ && word != "tcp"@ ==> out == Err::<
                    CapabilityView,
                    CapabilityProblem,
                >(CapabilityProblem::InvalidServiceType(word))
                &&& (word == "http"@ || word == "tcp"@) && secret.len() == 0 ==> out == Err::<
                    CapabilityView,
                    CapabilityProblem,
                >(CapabilityProblem::EmptySecret)
                &&& word == "http"@ && secret.len() > 0 ==> out == Ok::<
                    CapabilityView,
                    CapabilityProblem,
                >(
                    CapabilityView { service: parts[0], service_type: ServiceType::Http, secret },
                )
                &&& word == "tcp"@ && secret.len() > 0 ==> out == Ok::<
                    CapabilityView,
                    CapabilityProblem,
                >(CapabilityView { service: parts[0], service_type: ServiceType::Tcp, secret })
            }
        }),
{
    text::law_split_of_joined(parts, ':');
    config::law_type_words_are_distinct(ServiceType::Http, ServiceType::Tcp);
}

} // verus!
