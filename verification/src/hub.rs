//! The hub: registers vaults and keeps, for each vault, the vault position and the CDP of every account, issuing
//! the commands that keep the balance sheet, the vaults and the synthetic mint in step.
pub mod operations;
pub mod positions;
pub mod rates;

use vstd::prelude::*;

use crate::admin::AdminRole;
use crate::mint::{MintCmd, Synthetic, SyntheticAmount};
use crate::vault::{DepositAmount, DepositValue, SharesAmount};
use crate::{Asset, Decimals, Identifier, Recipient, UnauthorizedError};

use self::positions::{
    AmoShares, Collateral, ConvertCreditError, Credit, Debt, LossError, NothingToClaimError, RedeemReservesError,
    SelfLiquidateError, SumPaymentRatio, TreasuryShares, WithdrawCollateralError,
};
use self::rates::{AdvanceFee, AmoAllocation, CollateralYieldFee, MaxLtv, ReserveYieldFee};

verus! {

pub type VaultId = Identifier;

pub type Proxy = Identifier;

pub type Treasury = Identifier;

pub type Account = Identifier;

pub type Oracle = Identifier;

pub type Amo = Identifier;

pub type VaultShares = Asset;

/// The reasons a hub request is refused.
#[derive(Debug, Clone, PartialEq, Eq)]
pub enum Error {
    Unauthorized(UnauthorizedError),
    SharesValueLoss(LossError),
    Withdraw(WithdrawCollateralError),
    SelfLiquidate(SelfLiquidateError),
    ConvertCredit(ConvertCreditError),
    Redeem(RedeemReservesError),
    Claim(NothingToClaimError),
    InvalidDepositAsset,
    CannotDepositZero,
    VaultAlreadyRegistered,
    VaultNotRegistered,
    VaultNotFound,
    SyntheticNotFound,
    DecimalsMismatch,
    InvalidRate,
    NotEnoughCollateral,
    MaxLtvExceeded,
    CannotAdvanceZero,
    InvalidSyntheticAsset,
    CannotRepayZero,
    NothingToRepay,
    CannotWithdrawZero,
    CannotConvertZero,
    CannotMintZero,
    CannotRedeemZero,
    NoTreasurySet,
    NoAmoSet,
    DepositsDisabled,
    AdvanceDisabled,
}

/// The message of an error.
pub open spec fn error_message(e: Error) -> Seq<char> {
    match e {
        Error::Unauthorized(_) => "unauthorized"@,
        Error::SharesValueLoss(_) => "vault shares have suffered a loss in value"@,
        Error::Withdraw(WithdrawCollateralError::NotEnoughCollateral) => "not enough collateral"@,
        Error::Withdraw(WithdrawCollateralError::VaultLoss(_)) => "vault shares have suffered a loss in value"@,
        Error::SelfLiquidate(SelfLiquidateError::NothingToLiquidate) => "nothing to liquidate"@,
        Error::SelfLiquidate(SelfLiquidateError::VaultLoss(_)) => "vault shares have suffered a loss in value"@,
        Error::SelfLiquidate(SelfLiquidateError::InsufficientReserves) => "insufficient reserves"@,
        Error::ConvertCredit(ConvertCreditError::NotEnoughCredit) => "not enough credit"@,
        Error::ConvertCredit(ConvertCreditError::VaultLoss(_)) => "vault shares have suffered a loss in value"@,
        Error::ConvertCredit(ConvertCreditError::InsufficientReserves) => "insufficient reserves"@,
        Error::Redeem(RedeemReservesError::InsufficientReserves) => "insufficient reserves"@,
        Error::Redeem(RedeemReservesError::VaultLoss(_)) => "vault shares have suffered a loss in value"@,
        Error::Claim(_) => "nothing to claim"@,
        Error::InvalidDepositAsset => "invalid deposit asset"@,
        Error::CannotDepositZero => "cannot deposit zero"@,
        Error::VaultAlreadyRegistered => "vault already registered"@,
        Error::VaultNotRegistered => "vault not registered"@,
        Error::VaultNotFound => "vault not found"@,
        Error::SyntheticNotFound => "synthetic not found"@,
        Error::DecimalsMismatch => "decimals mismatch"@,
        Error::InvalidRate => "invalid rate"@,
        Error::NotEnoughCollateral => "not enough collateral"@,
        Error::MaxLtvExceeded => "max ltv exceeded"@,
        Error::CannotAdvanceZero => "cannot advance zero"@,
        Error::InvalidSyntheticAsset => "invalid synthetic asset"@,
        Error::CannotRepayZero => "cannot repay zero"@,
        Error::NothingToRepay => "nothing to repay"@,
        Error::CannotWithdrawZero => "cannot withdraw zero"@,
        Error::CannotConvertZero => "cannot convert zero"@,
        Error::CannotMintZero => "cannot mint zero"@,
        Error::CannotRedeemZero => "cannot redeem zero"@,
        Error::NoTreasurySet => "no treasury set"@,
        Error::NoAmoSet => "no amo set"@,
        Error::DepositsDisabled => "deposits disabled"@,
        Error::AdvanceDisabled => "advance disabled"@,
    }
}

impl Error {
    /// The error message.
    pub fn message(&self) -> (r: &'static str)
        ensures
            r@ == error_message(*self),
    {
        match self {
            Error::Unauthorized(_) => "unauthorized",
            Error::SharesValueLoss(_) => "vault shares have suffered a loss in value",
            Error::Withdraw(WithdrawCollateralError::NotEnoughCollateral) => "not enough collateral",
            Error::Withdraw(WithdrawCollateralError::VaultLoss(_)) => "vault shares have suffered a loss in value",
            Error::SelfLiquidate(SelfLiquidateError::NothingToLiquidate) => "nothing to liquidate",
            Error::SelfLiquidate(SelfLiquidateError::VaultLoss(_)) => "vault shares have suffered a loss in value",
            Error::SelfLiquidate(SelfLiquidateError::InsufficientReserves) => "insufficient reserves",
            Error::ConvertCredit(ConvertCreditError::NotEnoughCredit) => "not enough credit",
            Error::ConvertCredit(ConvertCreditError::VaultLoss(_)) => "vault shares have suffered a loss in value",
            Error::ConvertCredit(ConvertCreditError::InsufficientReserves) => "insufficient reserves",
            Error::Redeem(RedeemReservesError::InsufficientReserves) => "insufficient reserves",
            Error::Redeem(RedeemReservesError::VaultLoss(_)) => "vault shares have suffered a loss in value",
            Error::Claim(_) => "nothing to claim",
            Error::InvalidDepositAsset => "invalid deposit asset",
            Error::CannotDepositZero => "cannot deposit zero",
            Error::VaultAlreadyRegistered => "vault already registered",
            Error::VaultNotRegistered => "vault not registered",
            Error::VaultNotFound => "vault not found",
            Error::SyntheticNotFound => "synthetic not found",
            Error::DecimalsMismatch => "decimals mismatch",
            Error::InvalidRate => "invalid rate",
            Error::NotEnoughCollateral => "not enough collateral",
            Error::MaxLtvExceeded => "max ltv exceeded",
            Error::CannotAdvanceZero => "cannot advance zero",
            Error::InvalidSyntheticAsset => "invalid synthetic asset",
            Error::CannotRepayZero => "cannot repay zero",
            Error::NothingToRepay => "nothing to repay",
            Error::CannotWithdrawZero => "cannot withdraw zero",
            Error::CannotConvertZero => "cannot convert zero",
            Error::CannotMintZero => "cannot mint zero",
            Error::CannotRedeemZero => "cannot redeem zero",
            Error::NoTreasurySet => "no treasury set",
            Error::NoAmoSet => "no amo set",
            Error::DepositsDisabled => "deposits disabled",
            Error::AdvanceDisabled => "advance disabled",
        }
    }
}

/// The decimals of each synthetic.
pub trait SyntheticMint {
    /// The decimals of a synthetic, if it exists.
    spec fn spec_synthetic_decimals(&self, synthetic: Seq<char>) -> Option<Decimals>;

    fn syntethic_decimals(&self, synthetic: &Synthetic) -> (r: Option<Decimals>)
        ensures
            r == self.spec_synthetic_decimals(synthetic@),
    ;
}

/// The proxies of a vault to set.
#[derive(Debug, Clone)]
pub struct ProxyConfig {
    /// The deposit proxy address to set, if any
    pub deposit: Option<Proxy>,
    /// The advance proxy address to set, if any
    pub advance: Option<Proxy>,
    /// The redeem proxy address to set, if any
    pub redeem: Option<Proxy>,
    /// The mint proxy address to set, if any
    pub mint: Option<Proxy>,
}

/// Why a deposit into a vault was made, which decides what its callback does.
#[derive(Debug, Clone, Copy, PartialEq, Eq, Structural)]
pub enum VaultDepositReason {
    Deposit,
    RepayUnderlying,
    Mint,
}

/// Commands for the vaults registry and the vaults.
#[derive(Debug, Clone)]
pub enum VaultCmd {
    Register { vault: VaultId, synthetic: Synthetic },
    SetDepositsEnabled { vault: VaultId, enabled: bool },
    SetAdvanceEnabled { vault: VaultId, enabled: bool },
    SetMaxLtv { vault: VaultId, max_ltv: MaxLtv },
    SetCollateralYieldFee { vault: VaultId, fee: CollateralYieldFee },
    SetReserveYieldFee { vault: VaultId, fee: ReserveYieldFee },
    SetAdvanceFeeRecipient { vault: VaultId, recipient: Recipient },
    SetFixedAdvanceFee { vault: VaultId, fee: AdvanceFee },
    SetAdvanceFeeOracle { vault: VaultId, oracle: Oracle },
    SetAmo { vault: VaultId, amo: Amo },
    SetAmoAllocation { vault: VaultId, allocation: AmoAllocation },
    SetDepositProxy { vault: VaultId, proxy: Proxy },
    SetAdvanceProxy { vault: VaultId, proxy: Proxy },
    SetRedeemProxy { vault: VaultId, proxy: Proxy },
    SetMintProxy { vault: VaultId, proxy: Proxy },
    /// Deposit an `amount` of deposit `asset`s into the vault
    /// NOTE: The downstream libary user MUST provide the *same* `recipient` & `reason`
    /// in the associated `vault_deposit_callback` call.
    Deposit {
        vault: VaultId,
        asset: Asset,
        amount: DepositAmount,
        callback_recipient: Recipient,
        callback_reason: VaultDepositReason,
    },
    /// Redeem an `amount` of vault `shares` on behalf of a `recipient`
    Redeem { vault: VaultId, shares: VaultShares, amount: SharesAmount, recipient: Recipient },
}

/// The settings and totals of a vault, as values.
pub struct VaultSettings {
    pub registered: bool,
    pub found: bool,
    pub underlying_asset_decimals: Option<Decimals>,
    pub deposits_enabled: bool,
    pub advance_enabled: bool,
    pub max_ltv: Option<MaxLtv>,
    pub collateral_yield_fee: Option<CollateralYieldFee>,
    pub reserve_yield_fee: Option<ReserveYieldFee>,
    pub fixed_advance_fee: Option<AdvanceFee>,
    pub advance_fee_recipient: Option<Seq<char>>,
    pub advance_fee_oracle: Option<Seq<char>>,
    pub amo: Option<Seq<char>>,
    pub amo_allocation: Option<AmoAllocation>,
    pub deposit_proxy: Option<Seq<char>>,
    pub advance_proxy: Option<Seq<char>>,
    pub redeem_proxy: Option<Seq<char>>,
    pub mint_proxy: Option<Seq<char>>,
    pub deposit_asset: Seq<char>,
    pub shares_asset: Seq<char>,
    pub synthetic_asset: Seq<char>,
    pub total_shares_issued: u128,
    pub total_deposits_value: u128,
}

/// An optional identifier as a value.
pub open spec fn opt_id(o: Option<Identifier>) -> Option<Seq<char>> {
    match o {
        Some(i) => Some(i@),
        None => None,
    }
}

/// The registry of vaults.
pub trait Vaults {
    /// The settings and totals of a vault.
    spec fn settings(&self, vault: Seq<char>) -> VaultSettings;

    /// Returns the decimals used in the underlying asset value (collateral), if the vault exists at all
    fn underlying_asset_decimals(&self, vault: &VaultId) -> (r: Option<Decimals>)
        ensures
            r == self.settings(vault@).underlying_asset_decimals,
    ;

    /// Returns true if the vault has been registered;
    fn is_registered(&self, vault: &VaultId) -> (r: bool)
        ensures
            r == self.settings(vault@).registered,
    ;

    /// Returns true if the vault has deposits enabled, otherwise false.
    fn deposits_enabled(&self, vault: &VaultId) -> (r: bool)
        requires
            self.settings(vault@).registered,
        ensures
            r == self.settings(vault@).deposits_enabled,
    ;

    /// Returns true if the vault has advance enabled, otherwise false.
    fn advance_enabled(&self, vault: &VaultId) -> (r: bool)
        requires
            self.settings(vault@).registered,
        ensures
            r == self.settings(vault@).advance_enabled,
    ;

    fn max_ltv(&self, vault: &VaultId) -> (r: Option<MaxLtv>)
        requires
            self.settings(vault@).registered,
        ensures
            r == self.settings(vault@).max_ltv,
    ;

    fn collateral_yield_fee(&self, vault: &VaultId) -> (r: Option<CollateralYieldFee>)
        requires
            self.settings(vault@).registered,
        ensures
            r == self.settings(vault@).collateral_yield_fee,
    ;

    fn reserve_yield_fee(&self, vault: &VaultId) -> (r: Option<ReserveYieldFee>)
        requires
            self.settings(vault@).registered,
        ensures
            r == self.settings(vault@).reserve_yield_fee,
    ;

    fn fixed_advance_fee(&self, vault: &VaultId) -> (r: Option<AdvanceFee>)
        requires
            self.settings(vault@).registered,
        ensures
            r == self.settings(vault@).fixed_advance_fee,
    ;

    fn advance_fee_recipient(&self, vault: &VaultId) -> (r: Option<Recipient>)
        requires
            self.settings(vault@).registered,
        ensures
            opt_id(r) == self.settings(vault@).advance_fee_recipient,
    ;

    fn advance_fee_oracle(&self, vault: &VaultId) -> (r: Option<Oracle>)
        requires
            self.settings(vault@).registered,
        ensures
            opt_id(r) == self.settings(vault@).advance_fee_oracle,
    ;

    fn amo(&self, vault: &VaultId) -> (r: Option<Amo>)
        requires
            self.settings(vault@).registered,
        ensures
            opt_id(r) == self.settings(vault@).amo,
    ;

    fn amo_allocation(&self, vault: &VaultId) -> (r: Option<AmoAllocation>)
        requires
            self.settings(vault@).registered,
        ensures
            r == self.settings(vault@).amo_allocation,
    ;

    fn deposit_proxy(&self, vault: &VaultId) -> (r: Option<Proxy>)
        requires
            self.settings(vault@).registered,
        ensures
            opt_id(r) == self.settings(vault@).deposit_proxy,
    ;

    fn advance_proxy(&self, vault: &VaultId) -> (r: Option<Proxy>)
        requires
            self.settings(vault@).registered,
        ensures
            opt_id(r) == self.settings(vault@).advance_proxy,
    ;

    fn redeem_proxy(&self, vault: &VaultId) -> (r: Option<Proxy>)
        requires
            self.settings(vault@).registered,
        ensures
            opt_id(r) == self.settings(vault@).redeem_proxy,
    ;

    fn mint_proxy(&self, vault: &VaultId) -> (r: Option<Proxy>)
        requires
            self.settings(vault@).registered,
        ensures
            opt_id(r) == self.settings(vault@).mint_proxy,
    ;

    /// Returns the asset that the vault can accept for deposits
    fn deposit_asset(&self, vault: &VaultId) -> (r: Asset)
        requires
            self.settings(vault@).found,
        ensures
            r@ == self.settings(vault@).deposit_asset,
    ;

    /// Returns the shares asset that a vault issues
    fn shares_asset(&self, vault: &VaultId) -> (r: Asset)
        requires
            self.settings(vault@).found,
        ensures
            r@ == self.settings(vault@).shares_asset,
    ;

    /// Returns the synthetic asset associated with the vault, if the vault has been registered
    fn synthetic_asset(&self, vault: &VaultId) -> (r: Synthetic)
        requires
            self.settings(vault@).registered,
        ensures
            r@ == self.settings(vault@).synthetic_asset,
    ;

    /// Returns the total shares issued by the vault
    fn total_shares_issued(&self, vault: &VaultId) -> (r: crate::vault::TotalSharesIssued)
        requires
            self.settings(vault@).found,
        ensures
            r.0 == self.settings(vault@).total_shares_issued,
    ;

    /// Returns the total value of all vault deposits in terms of the underlying asset (collateral)
    fn total_deposits_value(&self, vault: &VaultId) -> (r: crate::vault::TotalDepositsValue)
        requires
            self.settings(vault@).found,
        ensures
            r.0 == self.settings(vault@).total_deposits_value,
    ;
}

/// Commands for the balance sheet.
#[derive(Debug, Clone)]
pub enum BalanceSheetCmd {
    SetTreasury { treasury: Treasury },
    SetCollateralShares { vault: VaultId, shares: SharesAmount },
    SetCollateralBalance { vault: VaultId, balance: Collateral },
    SetReserveShares { vault: VaultId, shares: SharesAmount },
    SetReserveBalance { vault: VaultId, balance: Collateral },
    SetTreasuryShares { vault: VaultId, shares: TreasuryShares },
    SetAmoShares { vault: VaultId, shares: AmoShares },
    SetOverallSumPaymentRatio { vault: VaultId, spr: SumPaymentRatio },
    SetAccountCollateral { vault: VaultId, account: Account, collateral: Collateral },
    SetAccountDebt { vault: VaultId, account: Account, debt: Debt },
    SetAccountCredit { vault: VaultId, account: Account, credit: Credit },
    SetAccountSumPaymentRatio { vault: VaultId, account: Account, spr: SumPaymentRatio },
    /// Send an `amount` of vault `shares` to a `recipient`
    SendShares { shares: VaultShares, amount: SharesAmount, recipient: Recipient },
}

/// What the balance sheet holds for a vault, as values.
pub struct VaultSheet {
    pub collateral_shares: Option<SharesAmount>,
    pub collateral_balance: Option<Collateral>,
    pub reserve_shares: Option<SharesAmount>,
    pub reserve_balance: Option<Collateral>,
    pub treasury_shares: Option<TreasuryShares>,
    pub amo_shares: Option<AmoShares>,
    pub overall_sum_payment_ratio: Option<nat>,
}

/// What the balance sheet holds for an account of a vault, as values.
pub struct AccountSheet {
    pub collateral: Option<Collateral>,
    pub debt: Option<Debt>,
    pub credit: Option<Credit>,
    pub sum_payment_ratio: Option<nat>,
}

/// An optional sum payment ratio as its raw value.
pub open spec fn opt_spr(o: Option<SumPaymentRatio>) -> Option<nat> {
    match o {
        Some(s) => Some(s.raw_value()),
        None => None,
    }
}

/// The balance sheet of the hub.
pub trait BalanceSheet {
    /// The treasury, if one is set.
    spec fn spec_treasury(&self) -> Option<Seq<char>>;

    /// What the balance sheet holds for a vault.
    spec fn vault_sheet(&self, vault: Seq<char>) -> VaultSheet;

    /// What the balance sheet holds for an account of a vault.
    spec fn account_sheet(&self, vault: Seq<char>, account: Seq<char>) -> AccountSheet;

    fn treasury(&self) -> (r: Option<Treasury>)
        ensures
            opt_id(r) == self.spec_treasury(),
    ;

    fn collateral_shares(&self, vault: &VaultId) -> (r: Option<SharesAmount>)
        ensures
            r == self.vault_sheet(vault@).collateral_shares,
    ;

    fn collateral_balance(&self, vault: &VaultId) -> (r: Option<Collateral>)
        ensures
            r == self.vault_sheet(vault@).collateral_balance,
    ;

    fn reserve_shares(&self, vault: &VaultId) -> (r: Option<SharesAmount>)
        ensures
            r == self.vault_sheet(vault@).reserve_shares,
    ;

    fn reserve_balance(&self, vault: &VaultId) -> (r: Option<Collateral>)
        ensures
            r == self.vault_sheet(vault@).reserve_balance,
    ;

    fn treasury_shares(&self, vault: &VaultId) -> (r: Option<TreasuryShares>)
        ensures
            r == self.vault_sheet(vault@).treasury_shares,
    ;

    fn amo_shares(&self, vault: &VaultId) -> (r: Option<AmoShares>)
        ensures
            r == self.vault_sheet(vault@).amo_shares,
    ;

    fn overall_sum_payment_ratio(&self, vault: &VaultId) -> (r: Option<SumPaymentRatio>)
        ensures
            opt_spr(r) == self.vault_sheet(vault@).overall_sum_payment_ratio,
    ;

    fn account_collateral(&self, vault: &VaultId, account: &Account) -> (r: Option<Collateral>)
        ensures
            r == self.account_sheet(vault@, account@).collateral,
    ;

    fn account_debt(&self, vault: &VaultId, account: &Account) -> (r: Option<Debt>)
        ensures
            r == self.account_sheet(vault@, account@).debt,
    ;

    fn account_credit(&self, vault: &VaultId, account: &Account) -> (r: Option<Credit>)
        ensures
            r == self.account_sheet(vault@, account@).credit,
    ;

    fn account_sum_payment_ratio(&self, vault: &VaultId, account: &Account) -> (r: Option<SumPaymentRatio>)
        ensures
            opt_spr(r) == self.account_sheet(vault@, account@).sum_payment_ratio,
    ;
}

/// The advance fee each recipient pays, as an oracle tells it.
pub trait AdvanceFeeOracle {
    /// The fee the oracle gives a recipient, if any.
    spec fn spec_advance_fee(&self, oracle: Seq<char>, recipient: Seq<char>) -> Option<AdvanceFee>;

    fn advance_fee(&self, oracle: &Oracle, recipient: &Recipient) -> (r: Option<AdvanceFee>)
        ensures
            r == self.spec_advance_fee(oracle@, recipient@),
    ;
}

/// The commands the hub issues.
#[derive(Debug, Clone)]
pub enum Cmd {
    Mint(MintCmd),
    Vault(VaultCmd),
    BalanceSheet(BalanceSheetCmd),
}

impl From<MintCmd> for Cmd {
    fn from(v: MintCmd) -> (r: Cmd) {
        Cmd::Mint(v)
    }
}

impl vstd::std_specs::convert::FromSpecImpl<MintCmd> for Cmd {
    open spec fn obeys_from_spec() -> bool {
        true
    }

    open spec fn from_spec(v: MintCmd) -> Cmd {
        Cmd::Mint(v)
    }
}

impl From<VaultCmd> for Cmd {
    fn from(v: VaultCmd) -> (r: Cmd) {
        Cmd::Vault(v)
    }
}

impl vstd::std_specs::convert::FromSpecImpl<VaultCmd> for Cmd {
    open spec fn obeys_from_spec() -> bool {
        true
    }

    open spec fn from_spec(v: VaultCmd) -> Cmd {
        Cmd::Vault(v)
    }
}

impl From<BalanceSheetCmd> for Cmd {
    fn from(v: BalanceSheetCmd) -> (r: Cmd) {
        Cmd::BalanceSheet(v)
    }
}

impl vstd::std_specs::convert::FromSpecImpl<BalanceSheetCmd> for Cmd {
    open spec fn obeys_from_spec() -> bool {
        true
    }

    open spec fn from_spec(v: BalanceSheetCmd) -> Cmd {
        Cmd::BalanceSheet(v)
    }
}

/// A command the hub's position operations issue, as values; sum payment ratios are given by their raw values and
/// configuration commands are not told apart.
pub enum CmdView {
    Mint { synthetic: Seq<char>, amount: u128, recipient: Seq<char> },
    Burn { synthetic: Seq<char>, amount: u128 },
    Deposit {
        vault: Seq<char>,
        asset: Seq<char>,
        amount: u128,
        callback_recipient: Seq<char>,
        callback_reason: VaultDepositReason,
    },
    Redeem { vault: Seq<char>, shares: Seq<char>, amount: u128, recipient: Seq<char> },
    SetCollateralShares { vault: Seq<char>, shares: u128 },
    SetCollateralBalance { vault: Seq<char>, balance: u128 },
    SetReserveShares { vault: Seq<char>, shares: u128 },
    SetReserveBalance { vault: Seq<char>, balance: u128 },
    SetTreasuryShares { vault: Seq<char>, shares: u128 },
    SetAmoShares { vault: Seq<char>, shares: u128 },
    SetOverallSumPaymentRatio { vault: Seq<char>, spr: nat },
    SetAccountCollateral { vault: Seq<char>, account: Seq<char>, collateral: u128 },
    SetAccountDebt { vault: Seq<char>, account: Seq<char>, debt: u128 },
    SetAccountCredit { vault: Seq<char>, account: Seq<char>, credit: u128 },
    SetAccountSumPaymentRatio { vault: Seq<char>, account: Seq<char>, spr: nat },
    SendShares { shares: Seq<char>, amount: u128, recipient: Seq<char> },
    Configure,
}

impl View for Cmd {
    type V = CmdView;

    open spec fn view(&self) -> CmdView {
        match self {
            Cmd::Mint(MintCmd::Mint { synthetic, amount, recipient }) => CmdView::Mint {
                synthetic: synthetic@,
                amount: *amount,
                recipient: recipient@,
            },
            Cmd::Mint(MintCmd::Burn { synthetic, amount }) => CmdView::Burn { synthetic: synthetic@, amount: *amount },
            Cmd::Vault(VaultCmd::Deposit { vault, asset, amount, callback_recipient, callback_reason }) => CmdView::Deposit {
                vault: vault@,
                asset: asset@,
                amount: amount.0,
                callback_recipient: callback_recipient@,
                callback_reason: *callback_reason,
            },
            Cmd::Vault(VaultCmd::Redeem { vault, shares, amount, recipient }) => CmdView::Redeem {
                vault: vault@,
                shares: shares@,
                amount: amount.0,
                recipient: recipient@,
            },
            Cmd::Vault(_) => CmdView::Configure,
            Cmd::BalanceSheet(BalanceSheetCmd::SetTreasury { .. }) => CmdView::Configure,
            Cmd::BalanceSheet(BalanceSheetCmd::SetCollateralShares { vault, shares }) => CmdView::SetCollateralShares {
                vault: vault@,
                shares: shares.0,
            },
            Cmd::BalanceSheet(BalanceSheetCmd::SetCollateralBalance { vault, balance }) => CmdView::SetCollateralBalance {
                vault: vault@,
                balance: *balance,
            },
            Cmd::BalanceSheet(BalanceSheetCmd::SetReserveShares { vault, shares }) => CmdView::SetReserveShares {
                vault: vault@,
                shares: shares.0,
            },
            Cmd::BalanceSheet(BalanceSheetCmd::SetReserveBalance { vault, balance }) => CmdView::SetReserveBalance {
                vault: vault@,
                balance: *balance,
            },
            Cmd::BalanceSheet(BalanceSheetCmd::SetTreasuryShares { vault, shares }) => CmdView::SetTreasuryShares {
                vault: vault@,
                shares: shares.0,
            },
            Cmd::BalanceSheet(BalanceSheetCmd::SetAmoShares { vault, shares }) => CmdView::SetAmoShares {
                vault: vault@,
                shares: shares.0,
            },
            Cmd::BalanceSheet(BalanceSheetCmd::SetOverallSumPaymentRatio { vault, spr }) => CmdView::SetOverallSumPaymentRatio {
                vault: vault@,
                spr: spr.raw_value(),
            },
            Cmd::BalanceSheet(BalanceSheetCmd::SetAccountCollateral { vault, account, collateral }) => CmdView::SetAccountCollateral {
                vault: vault@,
                account: account@,
                collateral: *collateral,
            },
            Cmd::BalanceSheet(BalanceSheetCmd::SetAccountDebt { vault, account, debt }) => CmdView::SetAccountDebt {
                vault: vault@,
                account: account@,
                debt: *debt,
            },
            Cmd::BalanceSheet(BalanceSheetCmd::SetAccountCredit { vault, account, credit }) => CmdView::SetAccountCredit {
                vault: vault@,
                account: account@,
                credit: *credit,
            },
            Cmd::BalanceSheet(BalanceSheetCmd::SetAccountSumPaymentRatio { vault, account, spr }) => CmdView::SetAccountSumPaymentRatio {
                vault: vault@,
                account: account@,
                spr: spr.raw_value(),
            },
            Cmd::BalanceSheet(BalanceSheetCmd::SendShares { shares, amount, recipient }) => CmdView::SendShares {
                shares: shares@,
                amount: amount.0,
                recipient: recipient@,
            },
        }
    }
}

/// Commands as values.
pub open spec fn cmds_view(cmds: Seq<Cmd>) -> Seq<CmdView> {
    cmds.map_values(|c: Cmd| c@)
}

/// The result of a position operation: its commands and the account's CDP after it.
#[derive(Debug)]
pub struct PositionResponse {
    pub cmds: Vec<Cmd>,
    pub cdp: positions::Cdp,
}

/// Appends a command.
fn push_cmd(cmds: &mut Vec<Cmd>, c: Cmd)
    ensures
        cmds_view(final(cmds)@) == cmds_view(old(cmds)@).push(c@),
        final(cmds)@ == old(cmds)@.push(c),
{
    cmds.push(c);
    assert(cmds_view(cmds@) =~= cmds_view(old(cmds)@).push(c@));
}

/// One command.
fn single_cmd(c: Cmd) -> (r: Vec<Cmd>)
    ensures
        r@ == seq![c],
        cmds_view(r@) == seq![c@],
{
    let mut r: Vec<Cmd> = Vec::new();
    r.push(c);
    assert(cmds_view(r@) =~= seq![c@]);
    r
}

// ----- configuration -----

/// Configures the hub: registers vaults and sets their parameters.
pub trait ConfigureHub {
    fn register_vault(&self, role: AdminRole, vault: VaultId, synthetic: Synthetic) -> Result<Vec<Cmd>, Error>;

    fn set_treasury(&self, role: AdminRole, treasury: Treasury) -> Result<Vec<Cmd>, Error>;

    fn set_deposit_enabled(&self, role: AdminRole, vault: VaultId, enabled: bool) -> Result<Vec<Cmd>, Error>;

    fn set_advance_enabled(&self, role: AdminRole, vault: VaultId, enabled: bool) -> Result<Vec<Cmd>, Error>;

    fn set_max_ltv(&self, role: AdminRole, vault: VaultId, bps: u32) -> Result<Vec<Cmd>, Error>;

    fn set_collateral_yield_fee(&self, role: AdminRole, vault: VaultId, bps: u32) -> Result<Vec<Cmd>, Error>;

    fn set_reserve_yield_fee(&self, role: AdminRole, vault: VaultId, bps: u32) -> Result<Vec<Cmd>, Error>;

    fn set_advance_fee_recipient(&self, role: AdminRole, vault: VaultId, recipient: Recipient) -> Result<Vec<Cmd>, Error>;

    fn set_fixed_advance_fee(&self, role: AdminRole, vault: VaultId, bps: u32) -> Result<Vec<Cmd>, Error>;

    fn set_advance_fee_oracle(&self, role: AdminRole, vault: VaultId, oracle: Oracle) -> Result<Vec<Cmd>, Error>;

    fn set_amo(&self, role: AdminRole, vault: VaultId, amo: Amo) -> Result<Vec<Cmd>, Error>;

    fn set_amo_allocation(&self, role: AdminRole, vault: VaultId, bps: u32) -> Result<Vec<Cmd>, Error>;

    fn set_proxy_config(&self, role: AdminRole, vault: VaultId, config: ProxyConfig) -> Result<Vec<Cmd>, Error>;
}

/// The hub's configuration over the vaults registry and the synthetic mint.
pub struct ConfigureHubImpl<'a, V: Vaults, M: SyntheticMint> {
    pub vaults: &'a V,
    pub mint: &'a M,
}

/// The hub's configuration over the vaults registry and the synthetic mint.
pub fn configure<'a, V: Vaults, M: SyntheticMint>(vaults: &'a V, mint: &'a M) -> (r: ConfigureHubImpl<'a, V, M>)
    ensures
        r.vaults == vaults,
        r.mint == mint,
{
    ConfigureHubImpl { vaults, mint }
}

/// One vault command for a registered vault, `VaultNotRegistered` otherwise.
pub open spec fn registered_cmd(registered: bool, cmd: VaultCmd) -> Result<Seq<Cmd>, Error> {
    if !registered {
        Err(Error::VaultNotRegistered)
    } else {
        Ok(seq![Cmd::Vault(cmd)])
    }
}

/// One vault command setting a rate for a registered vault: `VaultNotRegistered` first, then `InvalidRate` for a
/// rate above its maximum.
pub open spec fn registered_rate_cmd(registered: bool, rate_ok: bool, cmd: VaultCmd) -> Result<Seq<Cmd>, Error> {
    if !rate_ok {
        Err(Error::InvalidRate)
    } else {
        registered_cmd(registered, cmd)
    }
}

/// The result as a sequence of commands.
pub open spec fn result_seq(r: Result<Vec<Cmd>, Error>) -> Result<Seq<Cmd>, Error> {
    match r {
        Ok(v) => Ok(v@),
        Err(e) => Err(e),
    }
}

impl<'a, V: Vaults, M: SyntheticMint> ConfigureHub for ConfigureHubImpl<'a, V, M> {
    /// Registers a vault that is not registered yet, exists, and whose underlying asset has the decimals of the
    /// synthetic.
    fn register_vault(&self, role: AdminRole, vault: VaultId, synthetic: Synthetic) -> (r: Result<Vec<Cmd>, Error>)
        ensures
            result_seq(r) == if self.vaults.settings(vault@).registered {
                Err(Error::VaultAlreadyRegistered)
            } else {
                match (self.vaults.settings(vault@).underlying_asset_decimals, self.mint.spec_synthetic_decimals(synthetic@)) {
                    (None, _) => Err(Error::VaultNotFound),
                    (Some(_), None) => Err(Error::SyntheticNotFound),
                    (Some(u), Some(s)) => if u != s {
                        Err(Error::DecimalsMismatch)
                    } else {
                        Ok(seq![Cmd::Vault(VaultCmd::Register { vault, synthetic })])
                    },
                }
            },
    {
        if self.vaults.is_registered(&vault) {
            return Err(Error::VaultAlreadyRegistered);
        }
        let underlying_asset_decimals = match self.vaults.underlying_asset_decimals(&vault) {
            Some(d) => d,
            None => {
                return Err(Error::VaultNotFound);
            },
        };
        let synthetic_decimals = match self.mint.syntethic_decimals(&synthetic) {
            Some(d) => d,
            None => {
                return Err(Error::SyntheticNotFound);
            },
        };
        if underlying_asset_decimals != synthetic_decimals {
            return Err(Error::DecimalsMismatch);
        }
        Ok(single_cmd(Cmd::Vault(VaultCmd::Register { vault, synthetic })))
    }

    fn set_treasury(&self, role: AdminRole, treasury: Treasury) -> (r: Result<Vec<Cmd>, Error>)
        ensures
            result_seq(r) == Ok::<Seq<Cmd>, Error>(seq![Cmd::BalanceSheet(BalanceSheetCmd::SetTreasury { treasury })]),
    {
        Ok(single_cmd(Cmd::BalanceSheet(BalanceSheetCmd::SetTreasury { treasury })))
    }

    fn set_deposit_enabled(&self, role: AdminRole, vault: VaultId, enabled: bool) -> (r: Result<Vec<Cmd>, Error>)
        ensures
            result_seq(r) == registered_cmd(
                self.vaults.settings(vault@).registered,
                VaultCmd::SetDepositsEnabled { vault, enabled },
            ),
    {
        if !self.vaults.is_registered(&vault) {
            return Err(Error::VaultNotRegistered);
        }
        Ok(single_cmd(Cmd::Vault(VaultCmd::SetDepositsEnabled { vault, enabled })))
    }

    fn set_advance_enabled(&self, role: AdminRole, vault: VaultId, enabled: bool) -> (r: Result<Vec<Cmd>, Error>)
        ensures
            result_seq(r) == registered_cmd(
                self.vaults.settings(vault@).registered,
                VaultCmd::SetAdvanceEnabled { vault, enabled },
            ),
    {
        if !self.vaults.is_registered(&vault) {
            return Err(Error::VaultNotRegistered);
        }
        Ok(single_cmd(Cmd::Vault(VaultCmd::SetAdvanceEnabled { vault, enabled })))
    }

    fn set_max_ltv(&self, role: AdminRole, vault: VaultId, bps: u32) -> (r: Result<Vec<Cmd>, Error>)
        ensures
            bps > MaxLtv::MAX ==> result_seq(r) == Err::<Seq<Cmd>, Error>(Error::InvalidRate),
            bps <= MaxLtv::MAX ==> match result_seq(r) {
                Ok(cmds) => {
                    &&& self.vaults.settings(vault@).registered
                    &&& cmds.len() == 1
                    &&& cmds[0] matches Cmd::Vault(VaultCmd::SetMaxLtv { vault: v, max_ltv }) && v == vault && max_ltv.wf() && max_ltv.spec_bps() == bps
                },
                Err(e) => !self.vaults.settings(vault@).registered && e == Error::VaultNotRegistered,
            },
    {
        let max_ltv = match MaxLtv::new(bps) {
            Some(m) => m,
            None => {
                return Err(Error::InvalidRate);
            },
        };
        if !self.vaults.is_registered(&vault) {
            return Err(Error::VaultNotRegistered);
        }
        Ok(single_cmd(Cmd::Vault(VaultCmd::SetMaxLtv { vault, max_ltv })))
    }

    fn set_collateral_yield_fee(&self, role: AdminRole, vault: VaultId, bps: u32) -> (r: Result<Vec<Cmd>, Error>)
        ensures
            bps > CollateralYieldFee::MAX ==> result_seq(r) == Err::<Seq<Cmd>, Error>(Error::InvalidRate),
            bps <= CollateralYieldFee::MAX ==> match result_seq(r) {
                Ok(cmds) => {
                    &&& self.vaults.settings(vault@).registered
                    &&& cmds.len() == 1
                    &&& cmds[0] matches Cmd::Vault(VaultCmd::SetCollateralYieldFee { vault: v, fee }) && v == vault && fee.wf() && fee.spec_bps() == bps
                },
                Err(e) => !self.vaults.settings(vault@).registered && e == Error::VaultNotRegistered,
            },
    {
        let fee = match CollateralYieldFee::new(bps) {
            Some(m) => m,
            None => {
                return Err(Error::InvalidRate);
            },
        };
        if !self.vaults.is_registered(&vault) {
            return Err(Error::VaultNotRegistered);
        }
        Ok(single_cmd(Cmd::Vault(VaultCmd::SetCollateralYieldFee { vault, fee })))
    }

    fn set_reserve_yield_fee(&self, role: AdminRole, vault: VaultId, bps: u32) -> (r: Result<Vec<Cmd>, Error>)
        ensures
            bps > ReserveYieldFee::MAX ==> result_seq(r) == Err::<Seq<Cmd>, Error>(Error::InvalidRate),
            bps <= ReserveYieldFee::MAX ==> match result_seq(r) {
                Ok(cmds) => {
                    &&& self.vaults.settings(vault@).registered
                    &&& cmds.len() == 1
                    &&& cmds[0] matches Cmd::Vault(VaultCmd::SetReserveYieldFee { vault: v, fee }) && v == vault && fee.wf() && fee.spec_bps() == bps
                },
                Err(e) => !self.vaults.settings(vault@).registered && e == Error::VaultNotRegistered,
            },
    {
        let fee = match ReserveYieldFee::new(bps) {
            Some(m) => m,
            None => {
                return Err(Error::InvalidRate);
            },
        };
        if !self.vaults.is_registered(&vault) {
            return Err(Error::VaultNotRegistered);
        }
        Ok(single_cmd(Cmd::Vault(VaultCmd::SetReserveYieldFee { vault, fee })))
    }

    fn set_advance_fee_recipient(&self, role: AdminRole, vault: VaultId, recipient: Recipient) -> (r: Result<Vec<Cmd>, Error>)
        ensures
            result_seq(r) == registered_cmd(
                self.vaults.settings(vault@).registered,
                VaultCmd::SetAdvanceFeeRecipient { vault, recipient },
            ),
    {
        if !self.vaults.is_registered(&vault) {
            return Err(Error::VaultNotRegistered);
        }
        Ok(single_cmd(Cmd::Vault(VaultCmd::SetAdvanceFeeRecipient { vault, recipient })))
    }

    fn set_fixed_advance_fee(&self, role: AdminRole, vault: VaultId, bps: u32) -> (r: Result<Vec<Cmd>, Error>)
        ensures
            bps > AdvanceFee::MAX ==> result_seq(r) == Err::<Seq<Cmd>, Error>(Error::InvalidRate),
            bps <= AdvanceFee::MAX ==> match result_seq(r) {
                Ok(cmds) => {
                    &&& self.vaults.settings(vault@).registered
                    &&& cmds.len() == 1
                    &&& cmds[0] matches Cmd::Vault(VaultCmd::SetFixedAdvanceFee { vault: v, fee }) && v == vault && fee.wf() && fee.spec_bps() == bps
                },
                Err(e) => !self.vaults.settings(vault@).registered && e == Error::VaultNotRegistered,
            },
    {
        let fee = match AdvanceFee::new(bps) {
            Some(m) => m,
            None => {
                return Err(Error::InvalidRate);
            },
        };
        if !self.vaults.is_registered(&vault) {
            return Err(Error::VaultNotRegistered);
        }
        Ok(single_cmd(Cmd::Vault(VaultCmd::SetFixedAdvanceFee { vault, fee })))
    }

    fn set_advance_fee_oracle(&self, role: AdminRole, vault: VaultId, oracle: Oracle) -> (r: Result<Vec<Cmd>, Error>)
        ensures
            result_seq(r) == registered_cmd(
                self.vaults.settings(vault@).registered,
                VaultCmd::SetAdvanceFeeOracle { vault, oracle },
            ),
    {
        if !self.vaults.is_registered(&vault) {
            return Err(Error::VaultNotRegistered);
        }
        Ok(single_cmd(Cmd::Vault(VaultCmd::SetAdvanceFeeOracle { vault, oracle })))
    }

    fn set_amo(&self, role: AdminRole, vault: VaultId, amo: Amo) -> (r: Result<Vec<Cmd>, Error>)
        ensures
            result_seq(r) == registered_cmd(self.vaults.settings(vault@).registered, VaultCmd::SetAmo { vault, amo }),
    {
        if !self.vaults.is_registered(&vault) {
            return Err(Error::VaultNotRegistered);
        }
        Ok(single_cmd(Cmd::Vault(VaultCmd::SetAmo { vault, amo })))
    }

    fn set_amo_allocation(&self, role: AdminRole, vault: VaultId, bps: u32) -> (r: Result<Vec<Cmd>, Error>)
        ensures
            bps > AmoAllocation::MAX ==> result_seq(r) == Err::<Seq<Cmd>, Error>(Error::InvalidRate),
            bps <= AmoAllocation::MAX ==> match result_seq(r) {
                Ok(cmds) => {
                    &&& self.vaults.settings(vault@).registered
                    &&& cmds.len() == 1
                    &&& cmds[0] matches Cmd::Vault(VaultCmd::SetAmoAllocation { vault: v, allocation }) && v == vault && allocation.wf() && allocation.spec_bps() == bps
                },
                Err(e) => !self.vaults.settings(vault@).registered && e == Error::VaultNotRegistered,
            },
    {
        let allocation = match AmoAllocation::new(bps) {
            Some(m) => m,
            None => {
                return Err(Error::InvalidRate);
            },
        };
        if !self.vaults.is_registered(&vault) {
            return Err(Error::VaultNotRegistered);
        }
        Ok(single_cmd(Cmd::Vault(VaultCmd::SetAmoAllocation { vault, allocation })))
    }

    /// Sets each proxy given, in the order deposit, advance, redeem, mint.
    fn set_proxy_config(&self, role: AdminRole, vault: VaultId, config: ProxyConfig) -> (r: Result<Vec<Cmd>, Error>)
        ensures
            !self.vaults.settings(vault@).registered ==> result_seq(r) == Err::<Seq<Cmd>, Error>(Error::VaultNotRegistered),
            self.vaults.settings(vault@).registered ==> result_seq(r) == Ok::<Seq<Cmd>, Error>(proxy_cmds(vault, config)),
    {
        if !self.vaults.is_registered(&vault) {
            return Err(Error::VaultNotRegistered);
        }
        let mut cmds: Vec<Cmd> = Vec::new();
        let ghost c = config;
        if let Some(proxy) = config.deposit {
            let vault = vault.clone();
            cmds.push(Cmd::Vault(VaultCmd::SetDepositProxy { vault, proxy }));
        }
        if let Some(proxy) = config.advance {
            let vault = vault.clone();
            cmds.push(Cmd::Vault(VaultCmd::SetAdvanceProxy { vault, proxy }));
        }
        if let Some(proxy) = config.redeem {
            let vault = vault.clone();
            cmds.push(Cmd::Vault(VaultCmd::SetRedeemProxy { vault, proxy }));
        }
        if let Some(proxy) = config.mint {
            cmds.push(Cmd::Vault(VaultCmd::SetMintProxy { vault, proxy }));
        }
        assert(cmds@ =~= proxy_cmds(vault, c));
        Ok(cmds)
    }
}

/// A command setting a proxy, when there is one.
pub open spec fn opt_proxy_cmd(proxy: Option<Proxy>, cmd: spec_fn(Proxy) -> VaultCmd) -> Seq<Cmd> {
    match proxy {
        Some(p) => seq![Cmd::Vault(cmd(p))],
        None => Seq::empty(),
    }
}

/// The commands that set the proxies given, in the order deposit, advance, redeem, mint.
pub open spec fn proxy_cmds(vault: VaultId, config: ProxyConfig) -> Seq<Cmd> {
    opt_proxy_cmd(config.deposit, |p: Proxy| VaultCmd::SetDepositProxy { vault, proxy: p }) + opt_proxy_cmd(
        config.advance,
        |p: Proxy| VaultCmd::SetAdvanceProxy { vault, proxy: p },
    ) + opt_proxy_cmd(config.redeem, |p: Proxy| VaultCmd::SetRedeemProxy { vault, proxy: p }) + opt_proxy_cmd(
        config.mint,
        |p: Proxy| VaultCmd::SetMintProxy { vault, proxy: p },
    )
}

} // verus!
