//! The chain token factory that mints synthetics and vault shares: which flavour of it a chain runs, the denoms it
//! issues, the message types it accepts and the bank metadata it registers for a denom.
use vstd::prelude::*;
use vstd::string::StringExecFns;

use crate::Decimals;

verus! {

/// The token factory module a chain runs.
#[derive(Debug, Clone, Copy, PartialEq, Eq, Structural)]
pub enum Flavour {
    Osmosis,
}

/// The number that stands for a flavour.
pub open spec fn flavour_code(flavour: Flavour) -> u8 {
    match flavour {
        Flavour::Osmosis => 1,
    }
}

impl From<Flavour> for u8 {
    fn from(value: Flavour) -> (r: u8) {
        match value {
            Flavour::Osmosis => 1,
        }
    }
}

impl vstd::std_specs::convert::FromSpecImpl<Flavour> for u8 {
    open spec fn obeys_from_spec() -> bool {
        true
    }

    open spec fn from_spec(v: Flavour) -> u8 {
        flavour_code(v)
    }
}

impl Flavour {
    /// The flavour that `value` stands for; only the numbers of known flavours stand for one.
    pub fn from_code(value: u8) -> (r: Flavour)
        requires
            value == 1,
        ensures
            flavour_code(r) == value,
    {
        Flavour::Osmosis
    }

    /// The type URL of the message that creates a denom.
    pub fn create_denom_type_url(&self) -> (r: &'static str)
        ensures
            r@ == "/osmosis.tokenfactory.v1beta1.MsgCreateDenom"@,
    {
        match self {
            Flavour::Osmosis => "/osmosis.tokenfactory.v1beta1.MsgCreateDenom",
        }
    }

    /// The type URL of the message that sets a denom's bank metadata.
    pub fn set_metadata_type_url(&self) -> (r: &'static str)
        ensures
            r@ == "/osmosis.tokenfactory.v1beta1.MsgSetDenomMetadata"@,
    {
        match self {
            Flavour::Osmosis => "/osmosis.tokenfactory.v1beta1.MsgSetDenomMetadata",
        }
    }

    /// The type URL of the message that mints tokens.
    pub fn mint_type_url(&self) -> (r: &'static str)
        ensures
            r@ == "/osmosis.tokenfactory.v1beta1.MsgMint"@,
    {
        match self {
            Flavour::Osmosis => "/osmosis.tokenfactory.v1beta1.MsgMint",
        }
    }

    /// The type URL of the message that burns tokens.
    pub fn burn_type_url(&self) -> (r: &'static str)
        ensures
            r@ == "/osmosis.tokenfactory.v1beta1.MsgBurn"@,
    {
        match self {
            Flavour::Osmosis => "/osmosis.tokenfactory.v1beta1.MsgBurn",
        }
    }
}

/// The denom the token factory gives to `subdenom` when `contract_address` creates it.
pub open spec fn spec_denom(contract_address: Seq<char>, subdenom: Seq<char>) -> Seq<char> {
    "factory/"@ + contract_address + "/"@ + subdenom
}

/// The full denom of `subdenom` created by `contract_address`: `factory/{contract_address}/{subdenom}`.
pub fn denom(contract_address: &str, subdenom: &str) -> (r: String)
    ensures
        r@ == spec_denom(contract_address@, subdenom@),
{
    let mut denom = String::from_str("factory/");
    denom.append(contract_address);
    denom.append("/");
    denom.append(subdenom);
    denom
}

/// A unit of a denom: `1 denom` is `10^exponent` of the base unit.
#[derive(Debug, Clone, PartialEq, Eq)]
pub struct DenomUnit {
    pub denom: String,
    pub exponent: u32,
    pub aliases: Vec<String>,
}

/// The bank module's description of a denom.
#[derive(Debug, Clone, PartialEq, Eq)]
pub struct BankMetadata {
    pub description: String,
    pub denom_units: Vec<DenomUnit>,
    pub base: String,
    pub display: String,
    pub name: String,
    pub symbol: String,
    pub uri: String,
    pub uri_hash: String,
}

/// The metadata registered for `denom`: the base unit, and the `display` unit of `decimals` decimals that also names
/// the token; description and links are left empty.
pub fn bank_metadata(denom: &str, display: &str, decimals: Decimals) -> (r: BankMetadata)
    ensures
        r.description@ == Seq::<char>::empty(),
        r.denom_units@.len() == 2,
        r.denom_units@[0].denom@ == denom@,
        r.denom_units@[0].exponent == 0,
        r.denom_units@[0].aliases@.len() == 0,
        r.denom_units@[1].denom@ == display@,
        r.denom_units@[1].exponent == decimals,
        r.denom_units@[1].aliases@.len() == 0,
        r.base@ == denom@,
        r.display@ == display@,
        r.name@ == display@,
        r.symbol@ == display@,
        r.uri@ == Seq::<char>::empty(),
        r.uri_hash@ == Seq::<char>::empty(),
{
    let base_unit = DenomUnit { denom: String::from_str(denom), exponent: 0, aliases: Vec::new() };
    let display_unit = DenomUnit { denom: String::from_str(display), exponent: decimals, aliases: Vec::new() };
    let mut denom_units: Vec<DenomUnit> = Vec::new();
    denom_units.push(base_unit);
    denom_units.push(display_unit);
    BankMetadata {
        description: String::new(),
        denom_units,
        base: String::from_str(denom),
        display: String::from_str(display),
        name: String::from_str(display),
        symbol: String::from_str(display),
        uri: String::new(),
        uri_hash: String::new(),
    }
}

} // verus!
