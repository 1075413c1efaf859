//! The message that a request sends and a response carries.

use vstd::prelude::*;

use crate::options::{CoapOptionView, Options};

verus! {

/// What a message asks for, or how a request was answered.
#[derive(Debug, Clone, Copy, PartialEq, Eq, Structural)]
pub enum Code {
    Empty,
    Get,
    Post,
    Put,
    Delete,
    Created,
    Deleted,
    Valid,
    Changed,
    Content,
    /// Any other code, as its class and its detail.
    Other(u8, u8),
}

impl Code {
    /// Whether this is the code of a successful response that carries a
    /// payload.
    pub fn is_content(&self) -> (yes: bool)
        ensures
            yes == (*self == Code::Content),
    {
        match self {
            Code::Content => true,
            _ => false,
        }
    }
}

/// A message: a code, options in order, and a payload.
#[derive(Debug, Clone, PartialEq, Eq)]
pub struct Message {
    pub code: Code,
    pub options: Options,
    pub payload: Vec<u8>,
}

/// The mathematical value of a [`Message`].
pub struct MessageView {
    pub code: Code,
    pub options: Seq<CoapOptionView>,
    pub payload: Seq<u8>,
}

impl View for Message {
    type V = MessageView;

    open spec fn view(&self) -> MessageView {
        MessageView { code: self.code, options: self.options@, payload: self.payload@ }
    }
}

impl MessageView {
    /// The value of a fresh request: a GET with no option and no payload.
    pub open spec fn fresh() -> MessageView {
        MessageView { code: Code::Get, options: Seq::empty(), payload: Seq::empty() }
    }
}

impl Message {
    /// A fresh request: a GET with no option and no payload.
    pub fn new() -> (message: Message)
        ensures
            message@ == MessageView::fresh(),
    {
        Message { code: Code::Get, options: Options::new(), payload: Vec::new() }
    }
}

} // verus!
