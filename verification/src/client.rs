//! The client: a request under construction, consumed by sending it.

use vstd::prelude::*;
use vstd::string::*;

use crate::decompose::{decompose, decompose_spec};
use crate::endpoint::{Endpoint, EndpointView};
use crate::error::{Error, ErrorView, UrlError, UrlErrorView};
use crate::address::SocketAddress;
use crate::endpoint::selected;
use crate::exchange::{ActionView, EventView, Exchange, ExchangeView, DEFAULT_TIMEOUT_MS};
use crate::message::{Code, Message, MessageView};
use crate::uri_parts::{parsed_uri, UriParts, UriPartsView};

verus! {

/// One request: where it goes and what is sent. A client is used once:
/// sending consumes it.
#[derive(Debug)]
pub struct Client {
    /// the remote endpoint to contact
    endpoint: Endpoint,
    /// the message to be sent
    msg: Message,
}

/// The mathematical value of a [`Client`].
pub struct ClientView {
    pub endpoint: EndpointView,
    pub message: MessageView,
}

impl View for Client {
    type V = ClientView;

    closed spec fn view(&self) -> ClientView {
        ClientView { endpoint: self.endpoint@, message: self.msg@ }
    }
}

impl ClientView {
    /// The client that [`Client::new`] returns: no endpoint, a fresh GET.
    pub open spec fn fresh() -> ClientView {
        ClientView { endpoint: EndpointView::Unset, message: MessageView::fresh() }
    }

    /// The GET request for a URI that was taken apart: its endpoint and its
    /// options, or the reason why the URI is rejected.
    pub open spec fn for_parts(uri: UriPartsView) -> Result<ClientView, ErrorView> {
        match decompose_spec(uri) {
            Ok((endpoint, options)) => Ok(
                ClientView {
                    endpoint,
                    message: MessageView { code: Code::Get, options, payload: Seq::empty() },
                },
            ),
            Err(e) => Err(e),
        }
    }

    /// The GET request for the URI `url`. Text that is no URI is rejected as
    /// such.
    pub open spec fn for_url(url: Seq<char>) -> Result<ClientView, ErrorView> {
        match parsed_uri(url) {
            Some(uri) => ClientView::for_parts(uri),
            None => Err(ErrorView::UrlParsing(UrlErrorView::Syntax)),
        }
    }

    /// The state in which the exchange of this client begins: failed if no
    /// endpoint was set, resolving for a host name, ready to send for an
    /// address.
    pub open spec fn begin(self, timeout_ms: u64) -> ExchangeView {
        match self.endpoint {
            EndpointView::Unset => ExchangeView::Failed(ErrorView::EndpointNotSet),
            EndpointView::Unresolved(host, port) => ExchangeView::Resolving {
                host,
                port,
                message: self.message,
                timeout_ms,
            },
            EndpointView::Resolved(address) => ExchangeView::Idle {
                address,
                message: self.message,
                timeout_ms,
            },
        }
    }
}

/// The mathematical value of what [`Client::get`] returns.
pub open spec fn client_result_view(result: Result<Client, Error>) -> Result<
    ClientView,
    ErrorView,
> {
    match result {
        Ok(client) => Ok(client@),
        Err(e) => Err(e@),
    }
}

impl Client {
    /// A client with no endpoint and a fresh GET request.
    pub fn new() -> (client: Client)
        ensures
            client@ == ClientView::fresh(),
    {
        Client { endpoint: Endpoint::Unset, msg: Message::new() }
    }

    /// The GET request for a URI that was taken apart.
    pub fn from_parts(uri: UriParts) -> (result: Result<Client, Error>)
        ensures
            client_result_view(result) == ClientView::for_parts(uri@),
    {
        let mut client = Client::new();
        match decompose(uri) {
            Ok((endpoint, options)) => {
                client.set_endpoint(endpoint);
                client.msg.options = options;
                Ok(client)
            },
            Err(e) => Err(e),
        }
    }

    /// The GET request for the URI `url`.
    pub fn get(url: &str) -> (result: Result<Client, Error>)
        ensures
            client_result_view(result) == ClientView::for_url(url@),
    {
        match UriParts::parse(url) {
            Some(uri) => Client::from_parts(uri),
            None => Err(Error::UrlParsing(UrlError::Syntax)),
        }
    }

    /// Replaces the endpoint.
    pub fn set_endpoint(&mut self, endpoint: Endpoint)
        ensures
            final(self)@ == (ClientView { endpoint: endpoint@, message: old(self)@.message }),
    {
        self.endpoint = endpoint;
    }

    /// This client with `endpoint` in place of its own.
    pub fn with_endpoint(self, endpoint: Endpoint) -> (client: Client)
        ensures
            client@ == (ClientView { endpoint: endpoint@, message: self@.message }),
    {
        let mut client = self;
        client.set_endpoint(endpoint);
        client
    }

    /// The endpoint to contact.
    pub fn endpoint(&self) -> (endpoint: &Endpoint)
        ensures
            endpoint@ == self@.endpoint,
    {
        &self.endpoint
    }

    /// The message to be sent.
    pub fn message(&self) -> (message: &Message)
        ensures
            message@ == self@.message,
    {
        &self.msg
    }

    /// Consumes the client and begins its exchange, which listens for a
    /// response for 5000 milliseconds.
    pub fn send(self) -> (exchange: Exchange)
        ensures
            exchange@ == self@.begin(DEFAULT_TIMEOUT_MS),
    {
        self.send_within(DEFAULT_TIMEOUT_MS)
    }

    /// Consumes the client and begins its exchange, which listens for a
    /// response for `timeout_ms` milliseconds.
    pub fn send_within(self, timeout_ms: u64) -> (exchange: Exchange)
        ensures
            exchange@ == self@.begin(timeout_ms),
    {
        let Client { endpoint, msg } = self;
        match endpoint {
            Endpoint::Unset => Exchange::Failed(Error::EndpointNotSet),
            Endpoint::Unresolved(host, port) => Exchange::Resolving {
                host,
                port,
                message: msg,
                timeout_ms,
            },
            Endpoint::Resolved(address) => Exchange::new(address, msg, timeout_ms),
        }
    }
}

/// What leaves is the request as the client held it, to the address the
/// client held: a client with a resolved endpoint asks at once to send its
/// message there, unchanged.
pub proof fn lemma_resolved_client_sends_its_message(
    client: ClientView,
    address: SocketAddress,
    timeout_ms: u64,
)
    requires
        client.endpoint == EndpointView::Resolved(address),
    ensures
        client.begin(timeout_ms).action() == (ActionView::Send {
            address,
            message: client.message,
        }),
{
}

/// A client with a host name first asks for its addresses; it then sends
/// its message, unchanged, to the first address found, and fails with a
/// resolution error if none was found or the lookup failed.
pub proof fn lemma_named_client_resolves_first(
    client: ClientView,
    host: Seq<char>,
    port: u16,
    timeout_ms: u64,
    found: Seq<SocketAddress>,
)
    requires
        client.endpoint == EndpointView::Unresolved(host, port),
    ensures
        client.begin(timeout_ms).action() == (ActionView::Resolve { host, port }),
        found.len() > 0 ==> client.begin(timeout_ms).next(EventView::Addresses(found)).action()
            == (ActionView::Send { address: found[0], message: client.message }),
        found.len() == 0 ==> client.begin(timeout_ms).next(EventView::Addresses(found))
            == ExchangeView::Failed(ErrorView::ResolutionError),
        client.begin(timeout_ms).next(EventView::LookupFailed) == ExchangeView::Failed(
            ErrorView::ResolutionError,
        ),
{
    if found.len() > 0 {
        assert(selected(found) == Ok::<SocketAddress, ErrorView>(found[0]));
    }
}

/// A client without an endpoint fails when sent, before anything is asked
/// of the network.
pub proof fn lemma_unset_client_fails(client: ClientView, timeout_ms: u64)
    requires
        client.endpoint is Unset,
    ensures
        client.begin(timeout_ms).outcome() == Some(
            Err::<MessageView, ErrorView>(ErrorView::EndpointNotSet),
        ),
        client.begin(timeout_ms).action() is Finish,
{
}

} // verus!
