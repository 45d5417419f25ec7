//! Creation, minting and burning of synthetic assets.
use vstd::prelude::*;

use crate::{admin::AdminRole, Decimals, Identifier, Recipient, UnauthorizedError};

verus! {

pub type Minter = Identifier;

pub type Synthetic = Identifier;

pub type SyntheticAmount = u128;

/// What `str::to_lowercase` returns for a string: its Unicode lower case mapping.
pub uninterp spec fn lowercase(s: Seq<char>) -> Seq<char>;

/// `str::to_lowercase`.
#[verifier::external_body]
fn to_lowercase(s: &str) -> (r: String)
    ensures
        r@ == lowercase(s@),
{
    s.to_lowercase()
}

/// The ticker of a synthetic asset, always in lower case.
#[derive(Debug, PartialEq, Eq)]
pub struct Ticker(String);

impl Clone for Ticker {
    fn clone(&self) -> (r: Self)
        ensures
            r == *self,
    {
        Ticker(self.0.clone())
    }
}

impl View for Ticker {
    type V = Seq<char>;

    closed spec fn view(&self) -> Seq<char> {
        self.0@
    }
}

impl Ticker {
    /// The ticker for `ticker` in lower case.
    pub fn new(ticker: &str) -> (r: Ticker)
        ensures
            r@ == lowercase(ticker@),
    {
        Ticker(to_lowercase(ticker))
    }

    /// The ticker string.
    pub fn into_string(self) -> (r: String)
        ensures
            r@ == self@,
    {
        self.0
    }

    /// Borrows the ticker string.
    pub fn as_str(&self) -> (r: &str)
        ensures
            r@ == self@,
    {
        self.0.as_str()
    }
}

/// The reasons a mint request is refused.
#[derive(Debug, Clone, PartialEq, Eq)]
pub enum Error {
    Unauthorized(UnauthorizedError),
    TickerAlreadyExists,
    SyntheticNotFound,
}

/// The message of an error.
pub open spec fn error_message(e: Error) -> Seq<char> {
    match e {
        Error::Unauthorized(_) => "unauthorized"@,
        Error::TickerAlreadyExists => "ticker already exists"@,
        Error::SyntheticNotFound => "synthetic not found"@,
    }
}

impl Error {
    /// The error message.
    pub fn message(&self) -> (r: &'static str)
        ensures
            r@ == error_message(*self),
    {
        match self {
            Error::Unauthorized(_) => "unauthorized",
            Error::TickerAlreadyExists => "ticker already exists",
            Error::SyntheticNotFound => "synthetic not found",
        }
    }
}

#[derive(Debug, Clone, PartialEq, Eq)]
pub enum MintCmd {
    Mint { synthetic: Synthetic, amount: SyntheticAmount, recipient: Recipient },
    Burn { synthetic: Synthetic, amount: SyntheticAmount },
}

#[derive(Debug, Clone, PartialEq, Eq)]
pub enum ConfigCmd {
    CreateSynthetic { ticker: Ticker, decimals: Decimals },
    Whitelist { minter: Minter, enabled: bool },
}

#[derive(Debug, Clone, PartialEq, Eq)]
pub enum Cmd {
    Config(ConfigCmd),
    Mint(MintCmd),
}

/// Read access to the stored mint state.
pub trait Repository {
    spec fn spec_ticker_exists(&self, ticker: Seq<char>) -> bool;

    spec fn spec_synthetic_exists(&self, synthetic: Seq<char>) -> bool;

    spec fn spec_is_whitelisted(&self, minter: Seq<char>) -> Option<bool>;

    /// Returns true if the ticker exists
    fn ticker_exists(&self, ticker: &Ticker) -> (r: bool)
        ensures
            r == self.spec_ticker_exists(ticker@),
    ;

    /// Returns true if the synthetic exists
    fn synthetic_exists(&self, synthetic: &Synthetic) -> (r: bool)
        ensures
            r == self.spec_synthetic_exists(synthetic@),
    ;

    /// Returns Some(true | false) if the minter whitelist status has been set, otherwise None
    fn is_whitelisted(&self, minter: &Minter) -> (r: Option<bool>)
        ensures
            r == self.spec_is_whitelisted(minter@),
    ;
}

/// The operations of the mint.
pub trait Mint {
    /// Create a synthetic asset ready for minting with the given `ticker` and `decimals` - requires the admin role
    fn create_synthetic(&self, admin_role: AdminRole, ticker: Ticker, decimals: Decimals) -> Result<Cmd, Error>;

    /// Set a minter as whitelisted or not - requires the admin role
    fn set_whitelisted(&self, admin_role: AdminRole, minter: Minter, whitelisted: bool) -> Result<Cmd, Error>;

    /// Mint an amount of synthetics to a recipient
    fn mint(&self, minter: Minter, synthetic: Synthetic, amount: SyntheticAmount, recipient: Recipient) -> Result<Cmd, Error>;

    /// Burn an amount of synthetics, anyone can do this
    fn burn(&self, synthetic: Synthetic, amount: SyntheticAmount) -> Result<Cmd, Error>;
}

/// The mint logic over a repository.
pub struct MintImpl<'a, R: Repository> {
    repository: &'a R,
}

/// Builds the mint logic over a repository.
pub fn mint<'a, R: Repository>(repository: &'a R) -> (r: MintImpl<'a, R>)
    ensures
        r.repo() == repository,
{
    MintImpl { repository }
}

impl<'a, R: Repository> MintImpl<'a, R> {
    /// The repository the logic reads.
    pub closed spec fn repo(&self) -> &'a R {
        self.repository
    }
}

impl<'a, R: Repository> Mint for MintImpl<'a, R> {
    fn create_synthetic(&self, admin_role: AdminRole, ticker: Ticker, decimals: Decimals) -> (r: Result<Cmd, Error>)
        ensures
            self.repo().spec_ticker_exists(ticker@) ==> r == Err::<Cmd, Error>(Error::TickerAlreadyExists),
            !self.repo().spec_ticker_exists(ticker@) ==> r == Ok::<Cmd, Error>(Cmd::Config(ConfigCmd::CreateSynthetic { ticker, decimals })),
    {
        if self.repository.ticker_exists(&ticker) {
            return Err(Error::TickerAlreadyExists);
        }
        Ok(Cmd::Config(ConfigCmd::CreateSynthetic { ticker, decimals }))
    }

    fn set_whitelisted(&self, admin_role: AdminRole, minter: Minter, whitelisted: bool) -> (r: Result<Cmd, Error>)
        ensures
            r == Ok::<Cmd, Error>(Cmd::Config(ConfigCmd::Whitelist { minter, enabled: whitelisted })),
    {
        Ok(Cmd::Config(ConfigCmd::Whitelist { minter, enabled: whitelisted }))
    }

    fn mint(&self, minter: Minter, synthetic: Synthetic, amount: SyntheticAmount, recipient: Recipient) -> (r: Result<Cmd, Error>)
        ensures
            !self.repo().spec_synthetic_exists(synthetic@) ==> r == Err::<Cmd, Error>(Error::SyntheticNotFound),
            self.repo().spec_synthetic_exists(synthetic@) && self.repo().spec_is_whitelisted(minter@) != Some(true)
                ==> r == Err::<Cmd, Error>(Error::Unauthorized(UnauthorizedError)),
            self.repo().spec_synthetic_exists(synthetic@) && self.repo().spec_is_whitelisted(minter@) == Some(true)
                ==> r == Ok::<Cmd, Error>(Cmd::Mint(MintCmd::Mint { synthetic, amount, recipient })),
    {
        if !self.repository.synthetic_exists(&synthetic) {
            return Err(Error::SyntheticNotFound);
        }
        let whitelisted = match self.repository.is_whitelisted(&minter) {
            Some(w) => w,
            None => false,
        };
        if !whitelisted {
            return Err(Error::Unauthorized(UnauthorizedError));
        }
        Ok(Cmd::Mint(MintCmd::Mint { synthetic, amount, recipient }))
    }

    fn burn(&self, synthetic: Synthetic, amount: SyntheticAmount) -> (r: Result<Cmd, Error>)
        ensures
            !self.repo().spec_synthetic_exists(synthetic@) ==> r == Err::<Cmd, Error>(Error::SyntheticNotFound),
            self.repo().spec_synthetic_exists(synthetic@) ==> r == Ok::<Cmd, Error>(Cmd::Mint(MintCmd::Burn { synthetic, amount })),
    {
        if !self.repository.synthetic_exists(&synthetic) {
            return Err(Error::SyntheticNotFound);
        }
        Ok(Cmd::Mint(MintCmd::Burn { synthetic, amount }))
    }
}

} // verus!
