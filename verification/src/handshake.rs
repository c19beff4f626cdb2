//! The handshake with a server: the request for the upload-pack service, with
//! one retry after credentials were obtained, and what is made of the answer.
//!
//! The requests themselves are the caller's to make. `fetch` names the first
//! one; each answer, handed to the state that waits for it, names the next.

use crate::byte_str;
use crate::byte_str::contents;
use crate::capabilities::{
    holds, replaced, token_capabilities, values_named, Capabilities, CapabilityView,
};
use crate::refs::{views, Kind, Ref, RefView};
use vstd::prelude::*;
use vstd::string::StringSliceAdditionalSpecFns;

verus! {

/// The version of the wire protocol that a server speaks.
#[derive(Clone, Copy, Debug, PartialEq, Eq, Structural)]
pub enum Protocol {
    /// The server sends its references along with its capabilities.
    V1,
    /// The references have to be asked for.
    V2,
}

/// The service that a connection asks a server for.
#[derive(Clone, Copy, Debug, PartialEq, Eq, Structural)]
pub enum Service {
    /// The service that sends objects, for fetching.
    UploadPack,
    /// The service that receives objects, for pushing.
    ReceivePack,
}

/// A failure of the transport.
#[derive(Debug, PartialEq, Eq)]
pub struct TransportError {
    /// The server refused access for want of permission.
    pub permission_denied: bool,
    /// The failure may pass if the whole operation is tried again.
    pub is_spurious: bool,
    /// What went wrong, in words.
    pub message: String,
}

/// A failure to obtain, approve or reject credentials.
#[derive(Debug, PartialEq, Eq)]
pub struct CredentialsError {
    /// What went wrong, in words.
    pub message: String,
}

/// Who the transport is to present itself as.
#[derive(Debug, PartialEq, Eq)]
pub struct Identity {
    pub username: String,
    pub password: String,
}

/// What the authenticator wants back when the credentials it gave are approved
/// or rejected.
#[derive(Debug, PartialEq, Eq)]
pub struct NextAction {
    pub previous_output: Vec<u8>,
}

/// What the authenticator answers when asked to fill in credentials.
#[derive(Debug, PartialEq, Eq)]
pub struct Credentials {
    pub identity: Identity,
    pub next: NextAction,
}

/// What a transport reports after the service was requested.
#[derive(Debug, PartialEq, Eq)]
pub struct SetServiceResponse {
    /// The protocol that the server speaks, which may not be the one asked for.
    pub actual_protocol: Protocol,
    /// The capability tokens of the server, each `name` or `name=value`.
    pub capabilities: Vec<Vec<u8>>,
    /// The references that came with the answer.
    pub refs: Option<Vec<Ref>>,
}

/// Why a handshake failed.
#[derive(Debug, PartialEq, Eq)]
pub enum Error {
    /// Credentials could not be obtained, approved or rejected.
    Credentials(CredentialsError),
    /// The transport failed.
    Transport(TransportError),
    /// The server sent references though the protocol has them asked for, or
    /// sent none though the protocol has them sent.
    RefsMismatch { protocol: Protocol, has_refs: bool },
    /// The server names its objects by a hash function that is not supported.
    UnknownObjectFormat { format: Vec<u8> },
}

impl Error {
    /// Whether the operation may succeed if all of it is tried again.
    pub fn is_spurious(&self) -> (spurious: bool)
        ensures
            spurious == match *self {
                Error::Transport(err) => err.is_spurious,
                _ => false,
            },
    {
        match self {
            Error::Transport(err) => err.is_spurious,
            _ => false,
        }
    }
}

/// What a second attempt goes by: the denial that the first attempt met, and
/// what the authenticator wants back once the credentials were tried.
#[derive(Debug, PartialEq, Eq)]
pub struct Retry {
    pub denied: TransportError,
    pub next: NextAction,
}

/// Waiting for the answer to a request for the service. `retry` is present on
/// the second attempt, which presents the credentials that were filled in.
#[derive(Debug, PartialEq, Eq)]
pub struct Connecting {
    pub service: Service,
    /// Parameters to send along with the request, on every attempt.
    pub extra_parameters: Vec<(String, Option<String>)>,
    pub retry: Option<Retry>,
}

/// Waiting for the authenticator to fill in credentials.
#[derive(Debug, PartialEq, Eq)]
pub struct Filling {
    pub service: Service,
    pub extra_parameters: Vec<(String, Option<String>)>,
    /// The denial that the first attempt met.
    pub denied: TransportError,
}

/// Waiting for the transport to take up an identity.
#[derive(Debug, PartialEq, Eq)]
pub struct Identifying {
    pub service: Service,
    pub extra_parameters: Vec<(String, Option<String>)>,
    /// The denial that the first attempt met.
    pub denied: TransportError,
    pub next: NextAction,
}

/// Waiting for the authenticator to store the credentials that were accepted.
#[derive(Debug, PartialEq, Eq)]
pub struct Approving {
    pub response: SetServiceResponse,
}

/// Waiting for the authenticator to erase the credentials that were refused.
#[derive(Debug, PartialEq, Eq)]
pub struct Rejecting {
    /// The denial that the first attempt met.
    pub denied: TransportError,
}

/// What is to be done next, and the state that takes the answer.
#[derive(Debug, PartialEq, Eq)]
pub enum Step {
    /// Request the service from the transport.
    Connect(Connecting),
    /// Ask the authenticator for credentials for the URL of the transport.
    Fill(Filling),
    /// Tell the transport the identity to use from now on.
    SetIdentity(Identity, Identifying),
    /// Tell the authenticator that its credentials were accepted.
    Approve(NextAction, Approving),
    /// Tell the authenticator that its credentials were refused.
    Reject(NextAction, Rejecting),
    /// Nothing: the handshake has ended, with this result.
    Done(Result<SetServiceResponse, Error>),
}

impl Step {
    /// How far the handshake has come. Every answer leads to a step further on.
    pub open spec fn rank(self) -> nat {
        match self {
            Step::Connect(state) => if state.retry is None {
                0
            } else {
                3
            },
            Step::Fill(_) => 1,
            Step::SetIdentity(_, _) => 2,
            Step::Approve(_, _) => 4,
            Step::Reject(_, _) => 4,
            Step::Done(_) => 5,
        }
    }
}

/// The first step of a handshake for fetching.
pub open spec fn spec_fetch(extra_parameters: Vec<(String, Option<String>)>) -> Step {
    Step::Connect(Connecting { service: Service::UploadPack, extra_parameters, retry: None })
}

/// Begins the handshake for fetching: the upload-pack service is to be
/// requested with `extra_parameters`, and with no identity set.
pub fn fetch(extra_parameters: Vec<(String, Option<String>)>) -> (step: Step)
    ensures
        step == spec_fetch(extra_parameters),
{
    Step::Connect(Connecting { service: Service::UploadPack, extra_parameters, retry: None })
}

impl Connecting {
    /// What follows an answer to the request. Success ends a first attempt and
    /// has the credentials of a second one approved. Denial has a first
    /// attempt ask for credentials, keeping the denial, and has the
    /// credentials of a second one rejected, the first denial being what is
    /// kept for the end. Any other failure ends the handshake as it is.
    pub open spec fn spec_connected(self, result: Result<SetServiceResponse, TransportError>) -> Step {
        match result {
            Ok(response) => match self.retry {
                None => Step::Done(Ok(response)),
                Some(retry) => Step::Approve(retry.next, Approving { response }),
            },
            Err(error) => if !error.permission_denied {
                Step::Done(Err(Error::Transport(error)))
            } else {
                match self.retry {
                    None => Step::Fill(
                        Filling {
                            service: self.service,
                            extra_parameters: self.extra_parameters,
                            denied: error,
                        },
                    ),
                    Some(retry) => Step::Reject(retry.next, Rejecting { denied: retry.denied }),
                }
            },
        }
    }

    /// Takes the answer to the request for the service.
    pub fn connected(self, result: Result<SetServiceResponse, TransportError>) -> (step: Step)
        ensures
            step == self.spec_connected(result),
    {
        match result {
            Ok(response) => match self.retry {
                None => Step::Done(Ok(response)),
                Some(retry) => Step::Approve(retry.next, Approving { response }),
            },
            Err(error) => if !error.permission_denied {
                Step::Done(Err(Error::Transport(error)))
            } else {
                match self.retry {
                    None => Step::Fill(
                        Filling {
                            service: self.service,
                            extra_parameters: self.extra_parameters,
                            denied: error,
                        },
                    ),
                    Some(retry) => Step::Reject(retry.next, Rejecting { denied: retry.denied }),
                }
            },
        }
    }
}

impl Filling {
    /// What follows the authenticator's answer: its identity is set on the
    /// transport, or its failure ends the handshake.
    pub open spec fn spec_filled(self, result: Result<Credentials, CredentialsError>) -> Step {
        match result {
            Ok(credentials) => Step::SetIdentity(
                credentials.identity,
                Identifying {
                    service: self.service,
                    extra_parameters: self.extra_parameters,
                    denied: self.denied,
                    next: credentials.next,
                },
            ),
            Err(error) => Step::Done(Err(Error::Credentials(error))),
        }
    }

    /// Takes the authenticator's answer to the request for credentials.
    pub fn filled(self, result: Result<Credentials, CredentialsError>) -> (step: Step)
        ensures
            step == self.spec_filled(result),
    {
        match result {
            Ok(credentials) => Step::SetIdentity(
                credentials.identity,
                Identifying {
                    service: self.service,
                    extra_parameters: self.extra_parameters,
                    denied: self.denied,
                    next: credentials.next,
                },
            ),
            Err(error) => Step::Done(Err(Error::Credentials(error))),
        }
    }
}

impl Identifying {
    /// What follows: the second and last request for the service, or the end
    /// if the transport takes no identity.
    pub open spec fn spec_identity_set(self, result: Result<(), TransportError>) -> Step {
        match result {
            Ok(_) => Step::Connect(
                Connecting {
                    service: self.service,
                    extra_parameters: self.extra_parameters,
                    retry: Some(Retry { denied: self.denied, next: self.next }),
                },
            ),
            Err(error) => Step::Done(Err(Error::Transport(error))),
        }
    }

    /// Takes the transport's answer to the identity.
    pub fn identity_set(self, result: Result<(), TransportError>) -> (step: Step)
        ensures
            step == self.spec_identity_set(result),
    {
        match result {
            Ok(_) => Step::Connect(
                Connecting {
                    service: self.service,
                    extra_parameters: self.extra_parameters,
                    retry: Some(Retry { denied: self.denied, next: self.next }),
                },
            ),
            Err(error) => Step::Done(Err(Error::Transport(error))),
        }
    }
}

impl Approving {
    /// The end: the answer of the server, unless the credentials could not be
    /// stored.
    pub open spec fn spec_approved(self, result: Result<(), CredentialsError>) -> Step {
        match result {
            Ok(_) => Step::Done(Ok(self.response)),
            Err(error) => Step::Done(Err(Error::Credentials(error))),
        }
    }

    /// Takes the authenticator's answer to the approval.
    pub fn approved(self, result: Result<(), CredentialsError>) -> (step: Step)
        ensures
            step == self.spec_approved(result),
    {
        match result {
            Ok(_) => Step::Done(Ok(self.response)),
            Err(error) => Step::Done(Err(Error::Credentials(error))),
        }
    }
}

impl Rejecting {
    /// The end: the denial that the first request met, unless the credentials
    /// could not be erased.
    pub open spec fn spec_rejected(self, result: Result<(), CredentialsError>) -> Step {
        match result {
            Ok(_) => Step::Done(Err(Error::Transport(self.denied))),
            Err(error) => Step::Done(Err(Error::Credentials(error))),
        }
    }

    /// Takes the authenticator's answer to the rejection.
    pub fn rejected(self, result: Result<(), CredentialsError>) -> (step: Step)
        ensures
            step == self.spec_rejected(result),
    {
        match result {
            Ok(_) => Step::Done(Err(Error::Transport(self.denied))),
            Err(error) => Step::Done(Err(Error::Credentials(error))),
        }
    }
}

/// A handshake whose first request succeeds ends there: the authenticator is
/// never asked for anything.
pub proof fn success_at_first_needs_no_authenticator(
    extra_parameters: Vec<(String, Option<String>)>,
    response: SetServiceResponse,
)
    ensures
        spec_fetch(extra_parameters) is Connect,
        spec_fetch(extra_parameters)->Connect_0.spec_connected(Ok(response)) == Step::Done(
            Ok(response),
        ),
{
}

/// A first request that fails for anything but want of permission ends the
/// handshake with that failure: the authenticator is never asked for anything.
pub proof fn other_failure_at_first_needs_no_authenticator(
    extra_parameters: Vec<(String, Option<String>)>,
    error: TransportError,
)
    requires
        !error.permission_denied,
    ensures
        spec_fetch(extra_parameters)->Connect_0.spec_connected(Err(error)) == Step::Done(
            Err(Error::Transport(error)),
        ),
{
}

/// Denied once, then granted: the authenticator is asked to fill in
/// credentials and then to approve them, nothing else, and the handshake ends
/// with the answer to the second request.
pub proof fn denied_then_granted(
    extra_parameters: Vec<(String, Option<String>)>,
    denied: TransportError,
    credentials: Credentials,
    response: SetServiceResponse,
)
    requires
        denied.permission_denied,
    ensures
        ({
            let fill = spec_fetch(extra_parameters)->Connect_0.spec_connected(Err(denied));
            let identify = fill->Fill_0.spec_filled(Ok(credentials));
            let retry = identify->SetIdentity_1.spec_identity_set(Ok(()));
            let approve = retry->Connect_0.spec_connected(Ok(response));
            let done = approve->Approve_1.spec_approved(Ok(()));
            &&& fill is Fill
            &&& identify is SetIdentity
            &&& identify->SetIdentity_0 == credentials.identity
            &&& retry is Connect
            &&& retry->Connect_0.service == Service::UploadPack
            &&& retry->Connect_0.extra_parameters == extra_parameters
            &&& approve is Approve
            &&& approve->Approve_0 == credentials.next
            &&& done == Step::Done(Ok(response))
        }),
{
}

/// Denied twice: the authenticator is asked to fill in credentials and then to
/// reject them, nothing else, and the handshake ends with the denial that the
/// first request met, whatever the second denial says.
pub proof fn denied_twice(
    extra_parameters: Vec<(String, Option<String>)>,
    denied: TransportError,
    credentials: Credentials,
    again: TransportError,
)
    requires
        denied.permission_denied,
        again.permission_denied,
    ensures
        ({
            let fill = spec_fetch(extra_parameters)->Connect_0.spec_connected(Err(denied));
            let identify = fill->Fill_0.spec_filled(Ok(credentials));
            let retry = identify->SetIdentity_1.spec_identity_set(Ok(()));
            let reject = retry->Connect_0.spec_connected(Err(again));
            let done = reject->Reject_1.spec_rejected(Ok(()));
            &&& fill is Fill
            &&& identify is SetIdentity
            &&& identify->SetIdentity_0 == credentials.identity
            &&& retry is Connect
            &&& reject is Reject
            &&& reject->Reject_0 == credentials.next
            &&& done == Step::Done(Err(Error::Transport(denied)))
        }),
{
}

/// A second request that fails for anything but want of permission ends the
/// handshake with that failure. The credentials are neither approved nor
/// rejected, since nothing shows whether they were tried.
pub proof fn other_failure_at_second_leaves_credentials(second: Connecting, error: TransportError)
    requires
        second.retry is Some,
        !error.permission_denied,
    ensures
        second.spec_connected(Err(error)) == Step::Done(Err(Error::Transport(error))),
{
}

/// Every answer leads further on. So within one handshake the service is
/// requested at most twice, credentials are filled in at most once, and at
/// most one of approval and rejection follows.
pub proof fn every_answer_advances(
    connecting: Connecting,
    filling: Filling,
    identifying: Identifying,
    approving: Approving,
    rejecting: Rejecting,
    identity: Identity,
    next: NextAction,
    connected: Result<SetServiceResponse, TransportError>,
    filled: Result<Credentials, CredentialsError>,
    identity_set: Result<(), TransportError>,
    stored: Result<(), CredentialsError>,
)
    ensures
        connecting.spec_connected(connected).rank() > Step::Connect(connecting).rank(),
        filling.spec_filled(filled).rank() > Step::Fill(filling).rank(),
        identifying.spec_identity_set(identity_set).rank() > Step::SetIdentity(
            identity,
            identifying,
        ).rank(),
        approving.spec_approved(stored).rank() > Step::Approve(next, approving).rank(),
        rejecting.spec_rejected(stored).rank() > Step::Reject(next, rejecting).rank(),
{
}

/// The outcome of a handshake. It holds references exactly if the server
/// speaks the first version of the protocol.
#[derive(Debug, PartialEq, Eq)]
pub struct Outcome {
    server_protocol_version: Protocol,
    capabilities: Capabilities,
    refs: Option<Vec<Ref>>,
}

/// What a list of references holds, where there is one.
pub open spec fn optional_views(refs: Option<Vec<Ref>>) -> Option<Seq<RefView>> {
    match refs {
        Some(list) => Some(views(list@)),
        None => None,
    }
}

impl Outcome {
    #[verifier::type_invariant]
    spec fn conforms(self) -> bool {
        self.refs is Some <==> self.server_protocol_version == Protocol::V1
    }

    /// The protocol that the server speaks.
    pub closed spec fn version(self) -> Protocol {
        self.server_protocol_version
    }

    /// The capabilities of the server.
    pub closed spec fn advertised(self) -> Seq<CapabilityView> {
        self.capabilities@
    }

    /// The references that came with the handshake.
    pub closed spec fn inline_refs(self) -> Option<Seq<RefView>> {
        optional_views(self.refs)
    }

    /// An outcome of these parts, where the references are there as the
    /// protocol has it: sent with the first version, asked for later with the
    /// second. Other parts are refused.
    pub fn new(
        server_protocol_version: Protocol,
        capabilities: Capabilities,
        refs: Option<Vec<Ref>>,
    ) -> (outcome: Result<Outcome, Error>)
        ensures
            match outcome {
                Ok(o) => {
                    &&& refs is Some <==> server_protocol_version == Protocol::V1
                    &&& o.version() == server_protocol_version
                    &&& o.advertised() == capabilities@
                    &&& o.inline_refs() == optional_views(refs)
                },
                Err(e) => {
                    &&& !(refs is Some <==> server_protocol_version == Protocol::V1)
                    &&& e == Error::RefsMismatch {
                        protocol: server_protocol_version,
                        has_refs: refs is Some,
                    }
                },
            },
    {
        let has_refs = refs.is_some();
        let sends_refs = match server_protocol_version {
            Protocol::V1 => true,
            Protocol::V2 => false,
        };
        if has_refs == sends_refs {
            Ok(Outcome { server_protocol_version, capabilities, refs })
        } else {
            Err(Error::RefsMismatch { protocol: server_protocol_version, has_refs })
        }
    }

    /// The protocol that the server speaks.
    pub fn server_protocol_version(&self) -> (version: Protocol)
        ensures
            version == self.version(),
            version == Protocol::V1 <==> self.inline_refs() is Some,
    {
        proof {
            use_type_invariant(self);
        }
        self.server_protocol_version
    }

    /// The capabilities of the server.
    pub fn capabilities(&self) -> (capabilities: &Capabilities)
        ensures
            capabilities@ == self.advertised(),
    {
        &self.capabilities
    }

    /// The references that came with the handshake: some with the first
    /// version of the protocol, none with the second.
    pub fn refs(&self) -> (refs: &Option<Vec<Ref>>)
        ensures
            optional_views(*refs) == self.inline_refs(),
            refs is Some <==> self.version() == Protocol::V1,
    {
        proof {
            use_type_invariant(self);
        }
        &self.refs
    }

    /// The parts of the outcome.
    pub fn into_parts(self) -> (parts: (Protocol, Capabilities, Option<Vec<Ref>>))
        ensures
            parts.0 == self.version(),
            parts.1@ == self.advertised(),
            optional_views(parts.2) == self.inline_refs(),
            parts.2 is Some <==> parts.0 == Protocol::V1,
    {
        proof {
            use_type_invariant(&self);
        }
        (self.server_protocol_version, self.capabilities, self.refs)
    }
}

/// A chance to see and to adjust the capabilities of the server before
/// anything is made of them. What the hook leaves is what later requests go by.
pub trait Delegate {
    /// What is known of the hook: whether it may turn the capabilities
    /// `before` of a server that speaks `version` into `after`. Unless a
    /// delegate says more, nothing is known, and every change is one it may
    /// make.
    open spec fn adjusts(
        &self,
        version: Protocol,
        before: Seq<CapabilityView>,
        after: Seq<CapabilityView>,
    ) -> bool {
        true
    }

    /// Adjusts the capabilities.
    fn adjust_capabilities(&mut self, version: Protocol, capabilities: &mut Capabilities)
        ensures
            old(self).adjusts(version, old(capabilities)@, final(capabilities)@),
    ;
}

/// The delegate that leaves the capabilities as they are.
#[derive(Debug, PartialEq, Eq)]
pub struct Unadjusted;

impl Delegate for Unadjusted {
    open spec fn adjusts(
        &self,
        version: Protocol,
        before: Seq<CapabilityView>,
        after: Seq<CapabilityView>,
    ) -> bool {
        after == before
    }

    fn adjust_capabilities(&mut self, version: Protocol, capabilities: &mut Capabilities) {
    }
}

/// The capabilities that the server of `response` advertises, as they are
/// before any adjustment.
pub fn advertised_capabilities(response: &SetServiceResponse) -> (capabilities: Capabilities)
    ensures
        holds(capabilities@, token_capabilities(contents(response.capabilities@))),
{
    Capabilities::from_tokens(&response.capabilities)
}

/// The outcome of a handshake whose capabilities were adjusted: `agent`
/// replaces whatever the server or the adjustment put under that name, and the
/// references have to be there as the protocol has it.
pub fn adjusted_outcome(
    version: Protocol,
    adjusted: Capabilities,
    refs: Option<Vec<Ref>>,
    agent: &[u8],
) -> (outcome: Result<Outcome, Error>)
    ensures
        match outcome {
            Ok(o) => {
                &&& refs is Some <==> version == Protocol::V1
                &&& o.version() == version
                &&& replaced(adjusted@, o.advertised(), "agent".spec_bytes(), Some(agent@))
                &&& o.inline_refs() == optional_views(refs)
            },
            Err(e) => {
                &&& !(refs is Some <==> version == Protocol::V1)
                &&& e == Error::RefsMismatch { protocol: version, has_refs: refs is Some }
            },
        },
{
    let mut capabilities = adjusted;
    capabilities.set_agent_version(agent);
    Outcome::new(version, capabilities, refs)
}

/// Makes the outcome of a handshake from the answer of the server: the
/// capabilities are read from their tokens, shown to `delegate` together with
/// the protocol of the server, and what the delegate leaves is stamped with
/// `agent`, so that an `agent` entry of the delegate's does not last.
pub fn complete<D: Delegate>(response: SetServiceResponse, delegate: &mut D, agent: &[u8]) -> (outcome:
    Result<Outcome, Error>)
    ensures
        match outcome {
            Ok(o) => {
                &&& response.refs is Some <==> response.actual_protocol == Protocol::V1
                &&& o.version() == response.actual_protocol
                &&& exists|advertised: Seq<CapabilityView>, adjusted: Seq<CapabilityView>|
                    {
                        &&& holds(advertised, token_capabilities(contents(response.capabilities@)))
                        &&& #[trigger] old(delegate).adjusts(
                            response.actual_protocol,
                            advertised,
                            adjusted,
                        )
                        &&& replaced(adjusted, o.advertised(), "agent".spec_bytes(), Some(agent@))
                    }
                &&& values_named(o.advertised(), "agent".spec_bytes()) == seq![Some(agent@)]
                &&& o.inline_refs() == optional_views(response.refs)
            },
            Err(e) => {
                &&& !(response.refs is Some <==> response.actual_protocol == Protocol::V1)
                &&& e == Error::RefsMismatch {
                    protocol: response.actual_protocol,
                    has_refs: response.refs is Some,
                }
            },
        },
{
    let mut capabilities = advertised_capabilities(&response);
    let ghost advertised = capabilities@;
    delegate.adjust_capabilities(response.actual_protocol, &mut capabilities);
    let ghost adjusted = capabilities@;
    let outcome = adjusted_outcome(response.actual_protocol, capabilities, response.refs, agent);
    proof {
        if outcome is Ok {
            assert(holds(advertised, token_capabilities(contents(response.capabilities@))));
            assert(old(delegate).adjusts(response.actual_protocol, advertised, adjusted));
            assert(replaced(
                adjusted,
                outcome->Ok_0.advertised(),
                "agent".spec_bytes(),
                Some(agent@),
            ));
        }
    }
    outcome
}

/// With the delegate that leaves the capabilities as they are, what the
/// outcome of `complete` holds is what the server advertised, but for `agent`.
pub proof fn unadjusted_changes_nothing(
    version: Protocol,
    before: Seq<CapabilityView>,
    after: Seq<CapabilityView>,
)
    ensures
        (Unadjusted).adjusts(version, before, after) <==> after == before,
{
}

/// The hash function that the capabilities name under `object-format`: SHA-1
/// where they name none, the value where it is unknown.
pub open spec fn object_format_of(capabilities: Seq<CapabilityView>) -> Result<Kind, Seq<u8>> {
    let values = values_named(capabilities, "object-format".spec_bytes());
    if values.len() == 0 {
        Ok(Kind::Sha1)
    } else {
        match values[0] {
            None => Ok(Kind::Sha1),
            Some(format) => if format == "sha1".spec_bytes() {
                Ok(Kind::Sha1)
            } else {
                Err(format)
            },
        }
    }
}

/// Without a value under `object-format` the hash function is SHA-1; with the
/// value `sha1` it is SHA-1; with any other value there is none, and the value
/// is the failure.
pub proof fn object_format_is_sha1_or_unknown(capabilities: Seq<CapabilityView>)
    ensures
        ({
            let values = values_named(capabilities, "object-format".spec_bytes());
            let format = object_format_of(capabilities);
            &&& values.len() == 0 ==> format == Ok::<Kind, Seq<u8>>(Kind::Sha1)
            &&& values.len() > 0 && values[0] is None ==> format == Ok::<Kind, Seq<u8>>(Kind::Sha1)
            &&& values.len() > 0 && values[0] == Some("sha1".spec_bytes()) ==> format == Ok::<
                Kind,
                Seq<u8>,
            >(Kind::Sha1)
            &&& forall|other: Seq<u8>|
                values.len() > 0 && values[0] == Some(other) && other != "sha1".spec_bytes()
                    ==> format == Err::<Kind, Seq<u8>>(other)
        }),
{
}

/// The hash function by which the server names its objects. A server that
/// says nothing uses SHA-1; one that names anything else is not supported.
pub fn extract_object_format(outcome: &Outcome) -> (kind: Result<Kind, Error>)
    ensures
        match kind {
            Ok(k) => object_format_of(outcome.advertised()) == Ok::<Kind, Seq<u8>>(k),
            Err(e) => e matches Error::UnknownObjectFormat { format } && object_format_of(
                outcome.advertised(),
            ) == Err::<Kind, Seq<u8>>(format@),
        },
{
    match outcome.capabilities().value_of("object-format".as_bytes()) {
        None => Ok(Kind::Sha1),
        Some(format) => if byte_str::equal(format.as_slice(), "sha1".as_bytes()) {
            Ok(Kind::Sha1)
        } else {
            Err(Error::UnknownObjectFormat { format })
        },
    }
}

} // verus!
