//! Where a request is sent.

use vstd::prelude::*;
use vstd::string::*;

use crate::address::SocketAddress;
use crate::error::{Error, ErrorView};

verus! {

/// The destination of a request: not chosen yet, a host name still to be
/// looked up, or a socket address.
#[derive(Debug, Clone, PartialEq, Eq)]
pub enum Endpoint {
    Unset,
    Unresolved(String, u16),
    Resolved(SocketAddress),
}

/// The mathematical value of an [`Endpoint`].
pub enum EndpointView {
    Unset,
    Unresolved(Seq<char>, u16),
    Resolved(SocketAddress),
}

impl View for Endpoint {
    type V = EndpointView;

    open spec fn view(&self) -> EndpointView {
        match self {
            Endpoint::Unset => EndpointView::Unset,
            Endpoint::Unresolved(host, port) => EndpointView::Unresolved(host@, *port),
            Endpoint::Resolved(address) => EndpointView::Resolved(*address),
        }
    }
}

/// The address chosen from what a lookup found: the first one, in the order
/// the resolver gave them.
pub open spec fn selected(found: Seq<SocketAddress>) -> Result<SocketAddress, ErrorView> {
    if found.len() > 0 {
        Ok(found[0])
    } else {
        Err(ErrorView::ResolutionError)
    }
}

/// Chooses the address to contact from what a lookup found. A lookup that
/// found nothing is a resolution failure.
pub fn select_address(found: &Vec<SocketAddress>) -> (choice: Result<SocketAddress, Error>)
    ensures
        match choice {
            Ok(address) => selected(found@) == Ok::<SocketAddress, ErrorView>(address),
            Err(e) => selected(found@) == Err::<SocketAddress, ErrorView>(e@),
        },
{
    if found.len() > 0 {
        Ok(found[0])
    } else {
        Err(Error::ResolutionError)
    }
}

impl Endpoint {
    /// Whether a destination has been chosen.
    pub fn is_set(&self) -> (set: bool)
        ensures
            set == !(self@ is Unset),
    {
        match self {
            Endpoint::Unset => false,
            _ => true,
        }
    }
}

} // verus!
