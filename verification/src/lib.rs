pub mod admin;
pub mod fsm;
pub mod hub;
pub mod ibc_fee;
pub mod mint;
pub mod num;
pub mod query;
pub mod rate;
pub mod token_factory;
pub mod vault;

use vstd::prelude::*;

verus! {

/// An address or denomination: an opaque string that identifies an account or an asset.
#[derive(Debug, PartialEq, Eq)]
pub struct Identifier(String);

impl Clone for Identifier {
    fn clone(&self) -> (r: Self)
        ensures
            r == *self,
    {
        Identifier(self.0.clone())
    }
}

/// What an identifier stands for in contracts: its characters.
pub type IdentifierView = Seq<char>;

pub type Asset = Identifier;

pub type Recipient = Identifier;

pub type Sender = Identifier;

pub type Decimals = u32;

impl View for Identifier {
    type V = Seq<char>;

    closed spec fn view(&self) -> Seq<char> {
        self.0@
    }
}

impl Identifier {
    /// Wraps a string.
    pub fn new(s: String) -> (r: Identifier)
        ensures
            r@ == s@,
    {
        Identifier(s)
    }

    /// The string that the identifier wraps.
    pub fn into_string(self) -> (r: String)
        ensures
            r@ == self@,
    {
        self.0
    }

    /// Borrows the string that the identifier wraps.
    pub fn as_str(&self) -> (r: &str)
        ensures
            r@ == self@,
    {
        self.0.as_str()
    }

    /// True when both identifiers hold the same string.
    pub fn same_as(&self, other: &Identifier) -> (r: bool)
        ensures
            r == (self@ == other@),
    {
        self.0 == other.0
    }

}

impl<'a> From<&'a str> for Identifier {
    fn from(s: &'a str) -> (r: Identifier)
        ensures
            r@ == s@,
    {
        Identifier(s.to_owned())
    }
}

impl<'a> vstd::std_specs::convert::FromSpecImpl<&'a str> for Identifier {
    open spec fn obeys_from_spec() -> bool {
        false
    }

    open spec fn from_spec(v: &'a str) -> Identifier {
        choose|i: Identifier| i@ == v@
    }
}

impl From<String> for Identifier {
    fn from(s: String) -> (r: Identifier)
        ensures
            r@ == s@,
    {
        Identifier(s)
    }
}

impl vstd::std_specs::convert::FromSpecImpl<String> for Identifier {
    open spec fn obeys_from_spec() -> bool {
        false
    }

    open spec fn from_spec(v: String) -> Identifier {
        choose|i: Identifier| i@ == v@
    }
}

/// The sender is not allowed to perform the action.
#[derive(Debug, Clone, Copy, PartialEq, Eq)]
pub struct UnauthorizedError;

impl UnauthorizedError {
    /// The error message.
    pub fn message(&self) -> (r: &'static str)
        ensures
            r@ == "unauthorized"@,
    {
        "unauthorized"
    }
}

} // verus!
