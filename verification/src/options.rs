//! The request options that URI decomposition produces.

use vstd::prelude::*;
use vstd::string::*;

verus! {

/// The option number of Uri-Host.
pub const URI_HOST: u16 = 3;

/// The option number of Uri-Path.
pub const URI_PATH: u16 = 11;

/// The option number of Uri-Query.
pub const URI_QUERY: u16 = 15;

/// One option of a request.
#[derive(Debug, Clone, PartialEq, Eq)]
pub enum CoapOption {
    /// The host name of the resource.
    UriHost(String),
    /// One segment of the path to the resource.
    UriPath(String),
    /// One argument of the query.
    UriQuery(String),
}

/// The mathematical value of a [`CoapOption`].
pub enum CoapOptionView {
    UriHost(Seq<char>),
    UriPath(Seq<char>),
    UriQuery(Seq<char>),
}

impl CoapOptionView {
    /// The option number that tags this option.
    pub open spec fn number(self) -> u16 {
        match self {
            CoapOptionView::UriHost(_) => URI_HOST,
            CoapOptionView::UriPath(_) => URI_PATH,
            CoapOptionView::UriQuery(_) => URI_QUERY,
        }
    }

    /// The text that this option carries.
    pub open spec fn value(self) -> Seq<char> {
        match self {
            CoapOptionView::UriHost(v) => v,
            CoapOptionView::UriPath(v) => v,
            CoapOptionView::UriQuery(v) => v,
        }
    }
}

impl View for CoapOption {
    type V = CoapOptionView;

    open spec fn view(&self) -> CoapOptionView {
        match self {
            CoapOption::UriHost(v) => CoapOptionView::UriHost(v@),
            CoapOption::UriPath(v) => CoapOptionView::UriPath(v@),
            CoapOption::UriQuery(v) => CoapOptionView::UriQuery(v@),
        }
    }
}

impl CoapOption {
    /// The option number that tags this option.
    pub fn number(&self) -> (n: u16)
        ensures
            n == self@.number(),
    {
        match self {
            CoapOption::UriHost(_) => URI_HOST,
            CoapOption::UriPath(_) => URI_PATH,
            CoapOption::UriQuery(_) => URI_QUERY,
        }
    }

    /// The text that this option carries.
    pub fn value(&self) -> (v: &str)
        ensures
            v@ == self@.value(),
    {
        match self {
            CoapOption::UriHost(v) => v.as_str(),
            CoapOption::UriPath(v) => v.as_str(),
            CoapOption::UriQuery(v) => v.as_str(),
        }
    }
}

/// Whether the option numbers of `options` never decrease from one entry to
/// the next.
pub open spec fn numbers_ascend(options: Seq<CoapOptionView>) -> bool {
    forall|i: int, j: int|
        0 <= i <= j < options.len() ==> (#[trigger] options[i]).number() <= (
        #[trigger] options[j]).number()
}

/// An ordered list of options. Insertion order is kept and an option number
/// may occur any number of times.
#[derive(Debug, Clone, PartialEq, Eq)]
pub struct Options {
    items: Vec<CoapOption>,
}

impl View for Options {
    type V = Seq<CoapOptionView>;

    closed spec fn view(&self) -> Seq<CoapOptionView> {
        Seq::new(self.items@.len(), |i: int| self.items@[i]@)
    }
}

impl Options {
    /// The empty list.
    pub fn new() -> (options: Options)
        ensures
            options@ == Seq::<CoapOptionView>::empty(),
    {
        Options { items: Vec::new() }
    }

    /// Appends `option` after every option already present.
    pub fn push(&mut self, option: CoapOption)
        ensures
            final(self)@ == old(self)@.push(option@),
    {
        self.items.push(option);
    }

    /// The number of options.
    pub fn len(&self) -> (n: usize)
        ensures
            n == self@.len(),
    {
        self.items.len()
    }

    /// Whether the list holds no option.
    pub fn is_empty(&self) -> (empty: bool)
        ensures
            empty == (self@.len() == 0),
    {
        self.items.len() == 0
    }

    /// The option at position `index`, counted from zero.
    pub fn get(&self, index: usize) -> (option: Option<&CoapOption>)
        ensures
            option is Some == (index < self@.len()),
            option matches Some(o) ==> o@ == self@[index as int],
    {
        if index < self.items.len() {
            Some(&self.items[index])
        } else {
            None
        }
    }

    /// The options in order, as a slice.
    pub fn as_slice(&self) -> (items: &[CoapOption])
        ensures
            items@.len() == self@.len(),
            forall|i: int| 0 <= i < items@.len() ==> (#[trigger] items@[i])@ == self@[i],
    {
        self.items.as_slice()
    }
}

} // verus!
