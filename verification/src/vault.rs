//! A vault that issues shares for deposits into a yield strategy, and redeems shares through batched unbonding.
use vstd::arithmetic::div_mod::{lemma_div_is_ordered, lemma_multiply_divide_le};
use vstd::arithmetic::mul::{lemma_mul_inequality, lemma_mul_is_commutative};
use vstd::arithmetic::power::pow;
use vstd::prelude::*;

use crate::num::{w128, U256};
use crate::rate::{apply_raw, ratio_raw, Rate};
use crate::{Asset, Decimals, Identifier, Recipient};

pub mod attrs;
pub mod queries;

verus! {

pub type Instant = u64;

pub type Now = u64;

pub type Hint = u64;

pub type BatchId = u64;

pub const SHARES_DECIMAL_PLACES: Decimals = 18;

/// An amount of deposit assets
#[derive(Debug, Clone, Copy, PartialEq, Eq, Structural)]
pub struct DepositAmount(pub u128);

/// The value of a deposit in terms of the *underlying* asset
#[derive(Debug, Clone, Copy, PartialEq, Eq, Structural)]
pub struct DepositValue(pub u128);

/// An amount of shares assets
#[derive(Debug, Clone, Copy, PartialEq, Eq, Structural)]
pub struct SharesAmount(pub u128);

/// An amount of claimable deposit assets
#[derive(Debug, Clone, Copy, PartialEq, Eq, Structural)]
pub struct ClaimAmount(pub u128);

/// The total number of shares issued
#[derive(Debug, Clone, Copy, PartialEq, Eq, Structural)]
pub struct TotalSharesIssued(pub u128);

/// The total value of deposits in terms of the *underlying* asset
#[derive(Debug, Clone, Copy, PartialEq, Eq, Structural)]
pub struct TotalDepositsValue(pub u128);

#[derive(Debug, Clone, Copy, PartialEq, Eq, Structural)]
pub struct UnbondEpoch {
    pub start: Instant,
    pub end: Instant,
}

#[derive(Debug, Clone, Copy, PartialEq, Eq, Structural)]
pub enum UnbondReadyStatus {
    /// Unbonding is ready to be started
    Ready {
        /// The amount claimable in terms of the unbond-able asset (this could be different to the unbond amount requested, e.g. decimals)
        amount: ClaimAmount,
        /// The expected unbonding epoch
        epoch: UnbondEpoch,
    },
    /// Unbonding can be only be started later (there is a hint if possible)
    Later(Option<Hint>),
}

#[derive(Debug, Clone, PartialEq, Eq)]
pub enum MintCmd {
    /// Instructs the mint to create an `amount` of shares to be received by the `recipient`, increasing the number of total issued shares
    Mint { amount: SharesAmount, recipient: Recipient },
    /// Instructs the mint to destroy an `amount` of shares, decreasing the number of total issued shares.
    /// NOTE: It is assumed that the downstream user of the library has 'taken custody' of the shares to burn.
    Burn { amount: SharesAmount },
}

/// Read access to the shares mint.
pub trait SharesMint {
    spec fn spec_total_shares_issued(&self) -> u128;

    spec fn spec_shares_asset(&self) -> Seq<char>;

    /// Returns the total issued shares
    fn total_shares_issued(&self) -> (r: TotalSharesIssued)
        ensures
            r.0 == self.spec_total_shares_issued(),
    ;

    /// Returns asset that the strategy issues as shares
    fn shares_asset(&self) -> (r: Asset)
        ensures
            r@ == self.spec_shares_asset(),
    ;
}

#[derive(Debug, Clone, PartialEq, Eq)]
#[allow(inconsistent_fields)]
pub enum StrategyCmd {
    /// Deposit an `amount` of deposit assets into the strategy
    Deposit { amount: DepositAmount },
    /// Unbond an amount of deposited assets in equal `value` to the underlying asset
    Unbond { value: DepositValue },
    /// Send an `amount` of assets that should be undbonded from the strategy to the `recipient`
    SendClaimed { amount: ClaimAmount, recipient: Recipient },
}

/// Read access to the yield strategy.
pub trait Strategy {
    spec fn spec_now(&self) -> Now;

    spec fn spec_deposit_asset(&self) -> Seq<char>;

    spec fn spec_underlying_asset_decimals(&self) -> Decimals;

    spec fn spec_total_deposits_value(&self) -> u128;

    spec fn spec_deposit_value(&self, amount: u128) -> u128;

    spec fn spec_unbond(&self, value: u128) -> UnbondReadyStatus;

    /// Returns current instant in terms of unbonding time
    fn now(&self) -> (r: Now)
        ensures
            r == self.spec_now(),
    ;

    /// Returns asset that the strategy can accept for deposits
    fn deposit_asset(&self) -> (r: Asset)
        ensures
            r@ == self.spec_deposit_asset(),
    ;

    /// Returns the decimals used by the underlying asset
    fn underlying_asset_decimals(&self) -> (r: Decimals)
        ensures
            r == self.spec_underlying_asset_decimals(),
    ;

    /// Returns the total strategy deposits valued in terms of the underlying asset.
    fn total_deposits_value(&self) -> (r: TotalDepositsValue)
        ensures
            r.0 == self.spec_total_deposits_value(),
    ;

    /// Returns the deposit amount valued in terms of the underlying asset.
    fn deposit_value(&self, amount: DepositAmount) -> (r: DepositValue)
        ensures
            r.0 == self.spec_deposit_value(amount.0),
    ;

    /// Returns the `UnbondReadyStatus::Later(_)` with an optional start hint if unbonding is not yet possible,
    /// otherwise `UnbondReadyStatus::Ready { amount, epoch }`.
    fn unbond(&self, value: DepositValue) -> (r: UnbondReadyStatus)
        ensures
            r == self.spec_unbond(value.0),
    ;
}

#[derive(Debug, Clone, PartialEq, Eq)]
pub enum UnbondingLogSet {
    /// Set the last committed batch ID
    LastCommittedBatchId(BatchId),
    /// Set the total amount being unbonded in a batch
    BatchTotalUnbondValue { batch: BatchId, value: DepositValue },
    /// Set the claimable amount in a committed batch
    BatchClaimableAmount { batch: BatchId, amount: ClaimAmount },
    /// Set the hint for the pending batch
    BatchHint { batch: BatchId, hint: Hint },
    /// Set the epoch for a committed batch
    BatchEpoch { batch: BatchId, epoch: UnbondEpoch },
    /// Set the recipient's first entered batch ID
    FirstEnteredBatch { recipient: Recipient, batch: BatchId },
    /// Set the recipient's last entered batch ID
    LastEnteredBatch { recipient: Recipient, batch: BatchId },
    /// Set the recipient's next batch ID for a batch
    NextEnteredBatch { recipient: Recipient, previous: BatchId, next: BatchId },
    /// Set the recipient's last claimed batch ID
    LastClaimedBatch { recipient: Recipient, batch: BatchId },
    /// Set the amount a recipient is unbonding in a batch
    UnbondedValueInBatch { recipient: Recipient, batch: BatchId, value: DepositValue },
}

/// Read access to the log of unbonding batches.
pub trait UnbondingLog {
    spec fn spec_last_committed_batch_id(&self) -> Option<BatchId>;

    spec fn spec_batch_unbond_value(&self, batch: BatchId) -> Option<u128>;

    spec fn spec_batch_claimable_amount(&self, batch: BatchId) -> Option<u128>;

    spec fn spec_pending_batch_hint(&self, batch: BatchId) -> Option<Hint>;

    spec fn spec_committed_batch_epoch(&self, batch: BatchId) -> Option<UnbondEpoch>;

    spec fn spec_first_entered_batch(&self, recipient: Seq<char>) -> Option<BatchId>;

    spec fn spec_last_entered_batch(&self, recipient: Seq<char>) -> Option<BatchId>;

    spec fn spec_next_entered_batch(&self, recipient: Seq<char>, batch: BatchId) -> Option<BatchId>;

    spec fn spec_last_claimed_batch(&self, recipient: Seq<char>) -> Option<BatchId>;

    spec fn spec_unbonded_value_in_batch(&self, recipient: Seq<char>, batch: BatchId) -> Option<u128>;

    /// Returns the last committed batch id, if one has been set.
    fn last_committed_batch_id(&self) -> (r: Option<BatchId>)
        ensures
            r == self.spec_last_committed_batch_id(),
    ;

    /// Returns the total value of assets unbonded in a batch, if one has been set.
    fn batch_unbond_value(&self, batch: BatchId) -> (r: Option<DepositValue>)
        ensures
            r matches Some(v) ==> self.spec_batch_unbond_value(batch) == Some(v.0),
            r is None ==> self.spec_batch_unbond_value(batch) is None,
    ;

    /// Returns the claimable amount assigned to a batch id, if one has been set.
    fn batch_claimable_amount(&self, batch: BatchId) -> (r: Option<ClaimAmount>)
        ensures
            r matches Some(v) ==> self.spec_batch_claimable_amount(batch) == Some(v.0),
            r is None ==> self.spec_batch_claimable_amount(batch) is None,
    ;

    /// Returns the start hint assigned to a pending batch id, if one has been set.
    fn pending_batch_hint(&self, batch: BatchId) -> (r: Option<Hint>)
        ensures
            r == self.spec_pending_batch_hint(batch),
    ;

    /// Returns the unbond epoch assigned to a batch id, if one has been set.
    fn committed_batch_epoch(&self, batch: BatchId) -> (r: Option<UnbondEpoch>)
        ensures
            r == self.spec_committed_batch_epoch(batch),
    ;

    /// Returns batch id of the first batch the recipient entered, if one has been set.
    fn first_entered_batch(&self, recipient: &str) -> (r: Option<BatchId>)
        ensures
            r == self.spec_first_entered_batch(recipient@),
    ;

    /// Returns batch id of the last batch the recipient entered, if one has been set.
    fn last_entered_batch(&self, recipient: &str) -> (r: Option<BatchId>)
        ensures
            r == self.spec_last_entered_batch(recipient@),
    ;

    /// Returns batch id of the batch the recipient entered *after* the given `batch`, if one has been set.
    fn next_entered_batch(&self, recipient: &str, batch: BatchId) -> (r: Option<BatchId>)
        ensures
            r == self.spec_next_entered_batch(recipient@, batch),
    ;

    /// Returns batch id of the last batch successfully claimed by the recipient, if one has been set.
    fn last_claimed_batch(&self, recipient: &str) -> (r: Option<BatchId>)
        ensures
            r == self.spec_last_claimed_batch(recipient@),
    ;

    /// Returns unbonded value belonging to a recipient in a batch, if any has been set.
    fn unbonded_value_in_batch(&self, recipient: &str, batch: BatchId) -> (r: Option<DepositValue>)
        ensures
            r matches Some(v) ==> self.spec_unbonded_value_in_batch(recipient@, batch) == Some(v.0),
            r is None ==> self.spec_unbonded_value_in_batch(recipient@, batch) is None,
    ;
}

/// `shares * total_deposits / total_shares` rounded down.
pub open spec fn shares_to_deposits_value(shares: nat, total_shares: nat, total_deposits: nat) -> nat {
    shares * total_deposits / total_shares
}

/// `deposits * total_shares / total_deposits` rounded down.
pub open spec fn deposits_to_shares_value(deposits: nat, total_shares: nat, total_deposits: nat) -> nat {
    deposits * total_shares / total_deposits
}

/// The rate at which shares are redeemed for deposits: `total_deposits_value / total_shares_issued`, both non-zero.
#[derive(Debug, Clone, Copy)]
pub struct RedemptionRate {
    total_shares_issued: TotalSharesIssued,
    total_deposits_value: TotalDepositsValue,
}

/// The redemption rate of the given totals, `None` when either is zero.
pub closed spec fn rate_of(total_shares_issued: u128, total_deposits_value: u128) -> Option<RedemptionRate> {
    if total_shares_issued == 0 || total_deposits_value == 0 {
        None
    } else {
        Some(
            RedemptionRate {
                total_shares_issued: TotalSharesIssued(total_shares_issued),
                total_deposits_value: TotalDepositsValue(total_deposits_value),
            },
        )
    }
}

/// The rate of non-zero totals is well formed and has those totals.
pub proof fn lemma_rate_of(total_shares_issued: u128, total_deposits_value: u128)
    ensures
        rate_of(total_shares_issued, total_deposits_value) is Some <==> total_shares_issued > 0 && total_deposits_value > 0,
        rate_of(total_shares_issued, total_deposits_value) matches Some(rate) ==> rate.wf() && rate.shares()
            == total_shares_issued && rate.deposits() == total_deposits_value,
{
}

impl RedemptionRate {
    /// The total shares issued.
    pub closed spec fn shares(self) -> nat {
        self.total_shares_issued.0 as nat
    }

    /// The total deposits value.
    pub closed spec fn deposits(self) -> nat {
        self.total_deposits_value.0 as nat
    }

    /// Both totals are non-zero `u128`s.
    pub closed spec fn wf(self) -> bool {
        self.total_shares_issued.0 > 0 && self.total_deposits_value.0 > 0
    }

    /// The rate of the given totals, `None` when either is zero.
    pub fn new(total_shares_issued: TotalSharesIssued, total_deposits_value: TotalDepositsValue) -> (r: Option<Self>)
        ensures
            r is Some <==> total_shares_issued.0 > 0 && total_deposits_value.0 > 0,
            r matches Some(rate) ==> rate.wf() && rate.shares() == total_shares_issued.0 && rate.deposits()
                == total_deposits_value.0,
            r == rate_of(total_shares_issued.0, total_deposits_value.0),
    {
        if total_shares_issued.0 == 0 || total_deposits_value.0 == 0 {
            return None;
        }
        Some(Self { total_shares_issued, total_deposits_value })
    }

    /// The totals the rate is made of: (total shares issued, total deposits value).
    pub fn totals(&self) -> (r: (u128, u128))
        ensures
            r.0 == self.shares(),
            r.1 == self.deposits(),
    {
        (self.total_shares_issued.0, self.total_deposits_value.0)
    }

    /// A well formed rate has non-zero totals that fit `u128`.
    pub proof fn lemma_wf(self)
        requires
            self.wf(),
        ensures
            0 < self.shares() <= u128::MAX,
            0 < self.deposits() <= u128::MAX,
    {
    }

    /// The deposit value of `shares_amount`, rounded down; `None` when it does not fit `u128`.
    pub fn checked_shares_to_deposits(&self, shares_amount: SharesAmount) -> (r: Option<DepositValue>)
        requires
            self.wf(),
        ensures
            r is Some <==> shares_to_deposits_value(shares_amount.0 as nat, self.shares(), self.deposits()) <= u128::MAX,
            r matches Some(v) ==> v.0 == shares_to_deposits_value(shares_amount.0 as nat, self.shares(), self.deposits()),
    {
        let q = U256::from_u128(shares_amount.0).checked_mul_div(self.total_deposits_value.0, self.total_shares_issued.0);
        proof {
            lemma_mul_div_fits(shares_amount.0 as nat, self.deposits(), self.shares());
        }
        match q {
            Some(v) => match v.try_into_u128() {
                Some(d) => Some(DepositValue(d)),
                None => None,
            },
            None => None,
        }
    }

    /// The shares `deposit_value` is worth, rounded down; `None` when it does not fit `u128`.
    pub fn checked_deposits_to_shares(&self, deposit_value: DepositValue) -> (r: Option<SharesAmount>)
        requires
            self.wf(),
        ensures
            r is Some <==> deposits_to_shares_value(deposit_value.0 as nat, self.shares(), self.deposits()) <= u128::MAX,
            r matches Some(s) ==> s.0 == deposits_to_shares_value(deposit_value.0 as nat, self.shares(), self.deposits()),
    {
        let q = U256::from_u128(deposit_value.0).checked_mul_div(self.total_shares_issued.0, self.total_deposits_value.0);
        proof {
            lemma_mul_div_fits(deposit_value.0 as nat, self.shares(), self.deposits());
        }
        match q {
            Some(v) => match v.try_into_u128() {
                Some(s) => Some(SharesAmount(s)),
                None => None,
            },
            None => None,
        }
    }

    /// The deposit value of `shares_amount`, rounded down, for shares whose value fits `u128`.
    pub fn shares_to_deposits(&self, shares_amount: SharesAmount) -> (r: DepositValue)
        requires
            self.wf(),
            shares_to_deposits_value(shares_amount.0 as nat, self.shares(), self.deposits()) <= u128::MAX,
        ensures
            r.0 == shares_to_deposits_value(shares_amount.0 as nat, self.shares(), self.deposits()),
    {
        match self.checked_shares_to_deposits(shares_amount) {
            Some(v) => v,
            None => DepositValue(0),
        }
    }

    /// The shares `deposit_value` is worth, rounded down, for a value whose shares fit `u128`.
    pub fn deposits_to_shares(&self, deposit_value: DepositValue) -> (r: SharesAmount)
        requires
            self.wf(),
            deposits_to_shares_value(deposit_value.0 as nat, self.shares(), self.deposits()) <= u128::MAX,
        ensures
            r.0 == deposits_to_shares_value(deposit_value.0 as nat, self.shares(), self.deposits()),
    {
        match self.checked_deposits_to_shares(deposit_value) {
            Some(s) => s,
            None => SharesAmount(0),
        }
    }
}

/// A product of two `u128`s divided by a non-zero `u128` always fits 256 bits.
pub proof fn lemma_mul_div_fits(a: nat, b: nat, c: nat)
    requires
        a <= u128::MAX,
        b <= u128::MAX,
        0 < c <= u128::MAX,
    ensures
        a * b / c < crate::num::w256(),
        a * b / c <= a * b,
{
    assert(a * b < crate::num::w256()) by (nonlinear_arith)
        requires
            a <= u128::MAX,
            b <= u128::MAX,
            crate::num::w256() == 0x1_0000_0000_0000_0000_0000_0000_0000_0000_0000_0000_0000_0000_0000_0000_0000_0000nat,
    ;
    assert(a * b <= c * (a * b)) by (nonlinear_arith)
        requires
            c >= 1,
    ;
    lemma_multiply_divide_le((a * b) as int, c as int, (a * b) as int);
}

/// Converting deposits to shares and back never gives more than the deposits.
pub proof fn lemma_round_trip_deposits(deposits: nat, total_shares: nat, total_deposits: nat)
    requires
        total_shares > 0,
        total_deposits > 0,
    ensures
        shares_to_deposits_value(
            deposits_to_shares_value(deposits, total_shares, total_deposits),
            total_shares,
            total_deposits,
        ) <= deposits,
{
    let s = deposits * total_shares / total_deposits;
    // s * total_deposits <= deposits * total_shares
    vstd::arithmetic::div_mod::lemma_fundamental_div_mod((deposits * total_shares) as int, total_deposits as int);
    lemma_mul_is_commutative(total_deposits as int, s as int);
    assert(s * total_deposits <= deposits * total_shares);
    lemma_mul_is_commutative(deposits as int, total_shares as int);
    lemma_multiply_divide_le((s * total_deposits) as int, total_shares as int, deposits as int);
}

/// `base^exp` for a `u128` base (`u128::pow`).
#[verifier::external_body]
fn u128_pow(base: u128, exp: u32) -> (r: u128)
    requires
        pow(base as int, exp as nat) <= u128::MAX,
    ensures
        r == pow(base as int, exp as nat),
{
    base.pow(exp)
}

/// The batch that redemptions currently join: one past the last committed batch.
pub open spec fn spec_pending_batch_id<U: UnbondingLog>(log: &U) -> nat {
    match log.spec_last_committed_batch_id() {
        Some(b) => (b + 1) as nat,
        None => 0,
    }
}

/// The value already queued for unbonding in the pending batch.
pub open spec fn spec_pending_unbond_value<U: UnbondingLog>(log: &U) -> nat {
    match log.spec_batch_unbond_value(spec_pending_batch_id(log) as u64) {
        Some(v) => v as nat,
        None => 0,
    }
}

/// The strategy's total deposits value less the value pending unbonding.
pub open spec fn spec_offset_total_deposits_value<S: Strategy, U: UnbondingLog>(strategy: &S, log: &U) -> int {
    strategy.spec_total_deposits_value() - spec_pending_unbond_value(log)
}

/// The pending batch id can be computed without overflow.
pub open spec fn pending_batch_ok<U: UnbondingLog>(log: &U) -> bool {
    log.spec_last_committed_batch_id() != Some(u64::MAX)
}

/// The batch id that new redemptions join.
pub fn pending_batch_id<U: UnbondingLog>(unbonding_log: &U) -> (r: BatchId)
    requires
        pending_batch_ok(unbonding_log),
    ensures
        r == spec_pending_batch_id(unbonding_log),
{
    match unbonding_log.last_committed_batch_id() {
        Some(batch_id) => batch_id + 1,
        None => 0,
    }
}

/// Offsets the total deposit value reported by the strategy by the value of any deposits pending unbonding
pub fn offset_total_deposits_value<S: Strategy, U: UnbondingLog>(strategy: &S, unbonding_log: &U) -> (r: TotalDepositsValue)
    requires
        pending_batch_ok(unbonding_log),
        spec_offset_total_deposits_value(strategy, unbonding_log) >= 0,
    ensures
        r.0 == spec_offset_total_deposits_value(strategy, unbonding_log),
{
    let pending_batch_id = pending_batch_id(unbonding_log);
    let offset = match unbonding_log.batch_unbond_value(pending_batch_id) {
        Some(v) => v.0,
        None => 0,
    };
    let total_deposits_value = strategy.total_deposits_value().0;
    TotalDepositsValue(total_deposits_value - offset)
}

#[derive(Debug, Clone, PartialEq, Eq)]
pub enum Cmd {
    Mint(MintCmd),
    Strategy(StrategyCmd),
    UnbondingLog(UnbondingLogSet),
}

#[derive(Debug, Clone, Copy, PartialEq, Eq, Structural)]
pub enum Error {
    InvalidDepositAsset,
    CannotDepositZero,
    /// Due to the ever increasing redemption rate: (total_deposits / total_shares_issued)
    /// It is logically possible that a single share unit is valued higher than a single deposit asset unit.
    DepositTooSmall,
    /// It is logically possible that a deposit is so large that the resulting total deposit or
    /// minted shares balance is larger than the max representable value.
    DepositTooLarge,
    CannotDepositInTotalLossState,
    InvalidDonationAsset,
    CannotDonateZero,
    CannotRedeemZero,
    InvalidRedemptionAsset,
    /// It is logically possible that there is a total loss of deposits from the vault in which case the
    /// value of issued shares is zero.
    NoDepositsToRedeem,
    /// It is logically possible that a single share unit is valued less than a single deposit asset unit.
    RedemptionTooSmall,
    NothingToClaim,
    NothingToUnbond,
    UnbondNotReady,
}

/// The message of an error.
pub open spec fn error_message(e: Error) -> Seq<char> {
    match e {
        Error::InvalidDepositAsset => "invalid deposit asset"@,
        Error::CannotDepositZero => "cannot deposit zero"@,
        Error::DepositTooSmall => "deposit too small"@,
        Error::DepositTooLarge => "deposit too large"@,
        Error::CannotDepositInTotalLossState => "cannot deposit in total loss state"@,
        Error::InvalidDonationAsset => "invalid donation asset"@,
        Error::CannotDonateZero => "cannot donate zero"@,
        Error::CannotRedeemZero => "cannot redeem zero"@,
        Error::InvalidRedemptionAsset => "invalid redemption asset"@,
        Error::NoDepositsToRedeem => "no deposits to redeem"@,
        Error::RedemptionTooSmall => "redemption too small"@,
        Error::NothingToClaim => "nothing to claim"@,
        Error::NothingToUnbond => "nothing to unbond"@,
        Error::UnbondNotReady => "unbond not ready"@,
    }
}

impl Error {
    /// The error message.
    pub fn message(&self) -> (r: &'static str)
        ensures
            r@ == error_message(*self),
    {
        match self {
            Error::InvalidDepositAsset => "invalid deposit asset",
            Error::CannotDepositZero => "cannot deposit zero",
            Error::DepositTooSmall => "deposit too small",
            Error::DepositTooLarge => "deposit too large",
            Error::CannotDepositInTotalLossState => "cannot deposit in total loss state",
            Error::InvalidDonationAsset => "invalid donation asset",
            Error::CannotDonateZero => "cannot donate zero",
            Error::CannotRedeemZero => "cannot redeem zero",
            Error::InvalidRedemptionAsset => "invalid redemption asset",
            Error::NoDepositsToRedeem => "no deposits to redeem",
            Error::RedemptionTooSmall => "redemption too small",
            Error::NothingToClaim => "nothing to claim",
            Error::NothingToUnbond => "nothing to unbond",
            Error::UnbondNotReady => "unbond not ready",
        }
    }
}

#[derive(Debug, Clone, PartialEq, Eq)]
pub struct DepositResponse {
    pub cmds: Vec<Cmd>,
    pub deposit_value: DepositValue,
    pub issued_shares: SharesAmount,
    pub total_shares_issued: TotalSharesIssued,
    pub total_deposits_value: TotalDepositsValue,
}

/// The figures of a successful deposit: (deposit value, issued shares, total shares issued, total deposits value).
pub type DepositFigures = (nat, nat, nat, nat);

/// What a deposit of value `deposit_value` gives, given the offset total deposits value `prev_total`,
/// the total shares issued and the decimals of the underlying asset.
pub open spec fn deposit_outcome(prev_total: nat, deposit_value: nat, total_shares: nat, decimals: nat) -> Result<DepositFigures, Error> {
    let total = prev_total + deposit_value;
    if total > u128::MAX {
        Err(Error::DepositTooLarge)
    } else if total_shares == 0 || prev_total == 0 {
        if total_shares != 0 {
            Err(Error::CannotDepositInTotalLossState)
        } else if decimals == SHARES_DECIMAL_PLACES {
            Ok((deposit_value, total, total, total))
        } else {
            let mint = total * pow(10, (SHARES_DECIMAL_PLACES - decimals) as nat);
            if mint > u128::MAX {
                Err(Error::DepositTooLarge)
            } else {
                Ok((deposit_value, mint as nat, mint as nat, total))
            }
        }
    } else {
        let mint = deposits_to_shares_value(deposit_value, total_shares, prev_total);
        if mint > u128::MAX {
            Err(Error::DepositTooLarge)
        } else if mint == 0 {
            Err(Error::DepositTooSmall)
        } else if total_shares + mint > u128::MAX {
            Err(Error::DepositTooLarge)
        } else {
            Ok((shares_to_deposits_value(mint, total_shares, prev_total), mint, total_shares + mint, total))
        }
    }
}

/// The first deposit with an underlying asset of more than 18 decimals is the one input on which a deposit panics.
pub open spec fn deposit_panics(prev_total: nat, deposit_value: nat, total_shares: nat, decimals: nat) -> bool {
    &&& prev_total + deposit_value <= u128::MAX
    &&& total_shares == 0
    &&& decimals > SHARES_DECIMAL_PLACES
}

/// The unbond value that redeeming `shares` takes out of the offset total deposits value.
pub open spec fn redeem_value(shares: nat, total_shares: nat, offset_total: nat) -> nat {
    shares_to_deposits_value(shares, total_shares, offset_total)
}

/// The vault logic over a strategy, an unbonding log and a shares mint.
pub struct VaultImpl<'a, S: Strategy, U: UnbondingLog, M: SharesMint> {
    strategy: &'a S,
    unbonding_log: &'a U,
    mint: &'a M,
}

/// Builds the vault logic.
pub fn vault<'a, S: Strategy, U: UnbondingLog, M: SharesMint>(strategy: &'a S, unbonding_log: &'a U, mint: &'a M) -> (r: VaultImpl<'a, S, U, M>)
    ensures
        r.strategy() == strategy,
        r.log() == unbonding_log,
        r.shares_mint() == mint,
{
    VaultImpl { strategy, unbonding_log, mint }
}

impl<'a, S: Strategy, U: UnbondingLog, M: SharesMint> VaultImpl<'a, S, U, M> {
    pub closed spec fn strategy(&self) -> &'a S {
        self.strategy
    }

    pub closed spec fn log(&self) -> &'a U {
        self.unbonding_log
    }

    pub closed spec fn shares_mint(&self) -> &'a M {
        self.mint
    }

    /// The offset total deposits value.
    pub open spec fn spec_offset_total(&self) -> int {
        spec_offset_total_deposits_value(self.strategy(), self.log())
    }

    /// The pending batch id and the offset total can be computed.
    pub open spec fn offset_ok(&self) -> bool {
        pending_batch_ok(self.log()) && self.spec_offset_total() >= 0
    }

    /// What a deposit of `amount` gives, once the asset is known to be valid and the amount non-zero.
    pub open spec fn spec_deposit(&self, amount: u128) -> Result<DepositFigures, Error> {
        deposit_outcome(
            self.spec_offset_total() as nat,
            self.strategy().spec_deposit_value(amount) as nat,
            self.shares_mint().spec_total_shares_issued() as nat,
            self.strategy().spec_underlying_asset_decimals() as nat,
        )
    }

    /// A deposit of `amount` would break an invariant of the vault's totals (an overflow or more decimals than shares have).
    pub open spec fn spec_deposit_panics(&self, amount: u128) -> bool {
        deposit_panics(
            self.spec_offset_total() as nat,
            self.strategy().spec_deposit_value(amount) as nat,
            self.shares_mint().spec_total_shares_issued() as nat,
            self.strategy().spec_underlying_asset_decimals() as nat,
        )
    }
}

impl<'a, S: Strategy, U: UnbondingLog, M: SharesMint> VaultImpl<'a, S, U, M> {
    pub fn deposit(&self, deposit_asset: Asset, deposit_amount: DepositAmount, mint_recipient: Recipient) -> (r: Result<DepositResponse, Error>)
        requires
            deposit_amount.0 != 0 && deposit_asset@ == self.strategy().spec_deposit_asset() ==> self.offset_ok()
                && !self.spec_deposit_panics(deposit_amount.0),
        ensures
            deposit_amount.0 == 0 ==> r == Err::<DepositResponse, Error>(Error::CannotDepositZero),
            deposit_amount.0 != 0 && deposit_asset@ != self.strategy().spec_deposit_asset() ==> r == Err::<
                DepositResponse,
                Error,
            >(Error::InvalidDepositAsset),
            deposit_amount.0 != 0 && deposit_asset@ == self.strategy().spec_deposit_asset() ==> match r {
                Err(e) => self.spec_deposit(deposit_amount.0) == Err::<DepositFigures, Error>(e),
                Ok(resp) => {
                    &&& self.spec_deposit(deposit_amount.0) == Ok::<DepositFigures, Error>(
                        (
                            resp.deposit_value.0 as nat,
                            resp.issued_shares.0 as nat,
                            resp.total_shares_issued.0 as nat,
                            resp.total_deposits_value.0 as nat,
                        ),
                    )
                    &&& resp.cmds@ == seq![
                        Cmd::Strategy(StrategyCmd::Deposit { amount: deposit_amount }),
                        Cmd::Mint(MintCmd::Mint { amount: resp.issued_shares, recipient: mint_recipient }),
                    ]
                },
            },
    {
        let amount = deposit_amount.0;
        if amount == 0 {
            return Err(Error::CannotDepositZero);
        }
        if !deposit_asset.same_as(&self.strategy.deposit_asset()) {
            return Err(Error::InvalidDepositAsset);
        }
        let previous_total_deposits_value = offset_total_deposits_value(self.strategy, self.unbonding_log).0;
        // Value the deposit in terms of the underlying strategy token
        let deposit_value = self.strategy.deposit_value(DepositAmount(amount)).0;
        let total_deposits_value = match previous_total_deposits_value.checked_add(deposit_value) {
            Some(t) => t,
            None => {
                return Err(Error::DepositTooLarge);
            },
        };
        let deposit_cmd = StrategyCmd::Deposit { amount: DepositAmount(amount) };
        let total_shares_issued = self.mint.total_shares_issued().0;
        let redemption_rate = match RedemptionRate::new(
            TotalSharesIssued(total_shares_issued),
            TotalDepositsValue(previous_total_deposits_value),
        ) {
            Some(rate) => rate,
            None => {
                // A total loss with shares outstanding: new deposits would dilute them to nothing.
                if total_shares_issued != 0 {
                    return Err(Error::CannotDepositInTotalLossState);
                }
                let underlying_asset_decimals = self.strategy.underlying_asset_decimals();
                // no decimal normalisation for shares amount required
                if underlying_asset_decimals == SHARES_DECIMAL_PLACES {
                    let cmds = vec![
                        Cmd::Strategy(deposit_cmd),
                        Cmd::Mint(MintCmd::Mint { amount: SharesAmount(total_deposits_value), recipient: mint_recipient }),
                    ];
                    return Ok(DepositResponse {
                        cmds,
                        deposit_value: DepositValue(deposit_value),
                        issued_shares: SharesAmount(total_deposits_value),
                        total_shares_issued: TotalSharesIssued(total_deposits_value),
                        total_deposits_value: TotalDepositsValue(total_deposits_value),
                    });
                }
                proof {
                    lemma_pow10_bound((SHARES_DECIMAL_PLACES - underlying_asset_decimals) as nat);
                }
                // initial share issuance == inital deposit amount normalized to the shares decimals
                let scaler = u128_pow(10, SHARES_DECIMAL_PLACES - underlying_asset_decimals);
                let mint_shares = match total_deposits_value.checked_mul(scaler) {
                    Some(m) => m,
                    None => {
                        return Err(Error::DepositTooLarge);
                    },
                };
                let cmds = vec![
                    Cmd::Strategy(deposit_cmd),
                    Cmd::Mint(MintCmd::Mint { amount: SharesAmount(mint_shares), recipient: mint_recipient }),
                ];
                return Ok(DepositResponse {
                    cmds,
                    deposit_value: DepositValue(deposit_value),
                    issued_shares: SharesAmount(mint_shares),
                    total_shares_issued: TotalSharesIssued(mint_shares),
                    total_deposits_value: TotalDepositsValue(total_deposits_value),
                });
            },
        };
        let mint_shares = match redemption_rate.checked_deposits_to_shares(DepositValue(deposit_value)) {
            Some(s) => s.0,
            None => {
                return Err(Error::DepositTooLarge);
            },
        };
        if mint_shares == 0 {
            return Err(Error::DepositTooSmall);
        }
        proof {
            lemma_round_trip_deposits(deposit_value as nat, total_shares_issued as nat, previous_total_deposits_value as nat);
        }
        let mint_shares_value = redemption_rate.shares_to_deposits(SharesAmount(mint_shares));
        let total_shares_issued = match total_shares_issued.checked_add(mint_shares) {
            Some(t) => t,
            None => {
                return Err(Error::DepositTooLarge);
            },
        };
        let cmds = vec![
            Cmd::Strategy(deposit_cmd),
            Cmd::Mint(MintCmd::Mint { amount: SharesAmount(mint_shares), recipient: mint_recipient }),
        ];
        Ok(DepositResponse {
            cmds,
            deposit_value: mint_shares_value,
            issued_shares: SharesAmount(mint_shares),
            total_shares_issued: TotalSharesIssued(total_shares_issued),
            total_deposits_value: TotalDepositsValue(total_deposits_value),
        })
    }

    pub fn donate(&self, donate_asset: Asset, donate_amount: DepositAmount) -> (r: Result<StrategyCmd, Error>)
        ensures
            donate_amount.0 == 0 ==> r == Err::<StrategyCmd, Error>(Error::CannotDonateZero),
            donate_amount.0 != 0 && donate_asset@ != self.strategy().spec_deposit_asset() ==> r == Err::<
                StrategyCmd,
                Error,
            >(Error::InvalidDonationAsset),
            donate_amount.0 != 0 && donate_asset@ == self.strategy().spec_deposit_asset() ==> r == Ok::<
                StrategyCmd,
                Error,
            >(StrategyCmd::Deposit { amount: donate_amount }),
    {
        if donate_amount.0 == 0 {
            return Err(Error::CannotDonateZero);
        }
        if !donate_asset.same_as(&self.strategy.deposit_asset()) {
            return Err(Error::InvalidDonationAsset);
        }
        Ok(StrategyCmd::Deposit { amount: donate_amount })
    }

    /// The batch that redemptions currently join.
    pub open spec fn spec_pending(&self) -> u64 {
        spec_pending_batch_id(self.log()) as u64
    }

    /// The unbond value of redeeming `shares`.
    pub open spec fn spec_redeem_value(&self, shares: u128) -> nat {
        redeem_value(shares as nat, self.shares_mint().spec_total_shares_issued() as nat, self.spec_offset_total() as nat)
    }

    /// The pending batch's total unbond value after adding `value`.
    pub open spec fn spec_batch_total_after(&self, value: nat) -> nat {
        spec_pending_unbond_value(self.log()) + value
    }

    /// The recipient's unbond value in the pending batch after adding `value`.
    pub open spec fn spec_recipient_total_after(&self, recipient: Seq<char>, value: nat) -> nat {
        match self.log().spec_unbonded_value_in_batch(recipient, self.spec_pending()) {
            Some(v) => v as nat + value,
            None => value,
        }
    }

    /// A redemption reaches the unbonding step: right asset, non-zero shares, deposits to redeem and a
    /// non-zero unbond value that fits `u128`.
    pub open spec fn spec_redeem_proceeds(&self, shares_asset: Seq<char>, shares: u128) -> bool {
        &&& shares_asset == self.shares_mint().spec_shares_asset()
        &&& shares != 0
        &&& self.spec_offset_total() > 0
        &&& 0 < self.spec_redeem_value(shares) <= u128::MAX
    }

    /// The commands of a redemption that proceeds.
    pub open spec fn spec_redeem_cmds(&self, shares: u128, recipient: Recipient) -> Seq<Cmd> {
        let pending = self.spec_pending();
        let value = self.spec_redeem_value(shares);
        let total = self.spec_batch_total_after(value) as u128;
        let own = self.spec_recipient_total_after(recipient@, value) as u128;
        let base = seq![
            Cmd::UnbondingLog(UnbondingLogSet::BatchTotalUnbondValue { batch: pending, value: DepositValue(total) }),
            Cmd::UnbondingLog(UnbondingLogSet::UnbondedValueInBatch { recipient, batch: pending, value: DepositValue(own) }),
            Cmd::Mint(MintCmd::Burn { amount: SharesAmount(shares) }),
        ];
        let entered = match self.log().spec_last_entered_batch(recipient@) {
            Some(b) => if b != pending {
                seq![
                    Cmd::UnbondingLog(UnbondingLogSet::LastEnteredBatch { recipient, batch: pending }),
                    Cmd::UnbondingLog(UnbondingLogSet::NextEnteredBatch { recipient, previous: b, next: pending }),
                ]
            } else {
                Seq::empty()
            },
            None => seq![
                Cmd::UnbondingLog(UnbondingLogSet::LastEnteredBatch { recipient, batch: pending }),
                Cmd::UnbondingLog(UnbondingLogSet::FirstEnteredBatch { recipient, batch: pending }),
            ],
        };
        let unbond = match self.strategy().spec_unbond(total) {
            UnbondReadyStatus::Ready { amount, epoch } => seq![
                Cmd::UnbondingLog(UnbondingLogSet::LastCommittedBatchId(pending)),
                Cmd::UnbondingLog(UnbondingLogSet::BatchClaimableAmount { batch: pending, amount }),
                Cmd::UnbondingLog(UnbondingLogSet::BatchEpoch { batch: pending, epoch }),
                Cmd::Strategy(StrategyCmd::Unbond { value: DepositValue(total) }),
            ],
            UnbondReadyStatus::Later(Some(hint)) => seq![
                Cmd::UnbondingLog(UnbondingLogSet::BatchHint { batch: pending, hint }),
            ],
            UnbondReadyStatus::Later(None) => Seq::empty(),
        };
        base + entered + unbond
    }

    /// Redeem `shares_amount` shares: they are burnt and their value joins the pending unbonding batch.
    pub fn redeem(&self, shares_asset: Asset, shares_amount: SharesAmount, recipient: Recipient) -> (r: Result<Vec<Cmd>, Error>)
        requires
            shares_asset@ == self.shares_mint().spec_shares_asset() ==> {
                &&& shares_amount.0 <= self.shares_mint().spec_total_shares_issued()
                &&& self.shares_mint().spec_total_shares_issued() > 0
                &&& shares_amount.0 != 0 ==> self.offset_ok()
            },
            self.spec_redeem_proceeds(shares_asset@, shares_amount.0) ==> {
                &&& self.spec_batch_total_after(self.spec_redeem_value(shares_amount.0)) <= u128::MAX
                &&& self.spec_recipient_total_after(recipient@, self.spec_redeem_value(shares_amount.0)) <= u128::MAX
            },
        ensures
            shares_asset@ != self.shares_mint().spec_shares_asset() ==> r == Err::<Vec<Cmd>, Error>(
                Error::InvalidRedemptionAsset,
            ),
            shares_asset@ == self.shares_mint().spec_shares_asset() && shares_amount.0 == 0 ==> r == Err::<
                Vec<Cmd>,
                Error,
            >(Error::CannotRedeemZero),
            shares_asset@ == self.shares_mint().spec_shares_asset() && shares_amount.0 != 0 && self.spec_offset_total()
                == 0 ==> r == Err::<Vec<Cmd>, Error>(Error::NoDepositsToRedeem),
            shares_asset@ == self.shares_mint().spec_shares_asset() && shares_amount.0 != 0 && self.spec_offset_total()
                > 0 && !(0 < self.spec_redeem_value(shares_amount.0) <= u128::MAX) ==> r == Err::<Vec<Cmd>, Error>(
                Error::RedemptionTooSmall,
            ),
            self.spec_redeem_proceeds(shares_asset@, shares_amount.0) ==> (r matches Ok(cmds) && cmds@
                == self.spec_redeem_cmds(shares_amount.0, recipient)),
    {
        if !shares_asset.same_as(&self.mint.shares_asset()) {
            return Err(Error::InvalidRedemptionAsset);
        }
        let shares = shares_amount.0;
        let total_shares_issued = self.mint.total_shares_issued().0;
        if shares == 0 {
            return Err(Error::CannotRedeemZero);
        }
        // total deposits value less the value of pending unbondings
        let offset_total = offset_total_deposits_value(self.strategy, self.unbonding_log).0;
        let redemption_rate = match RedemptionRate::new(TotalSharesIssued(total_shares_issued), TotalDepositsValue(offset_total)) {
            Some(rate) => rate,
            None => {
                return Err(Error::NoDepositsToRedeem);
            },
        };
        let unbond_value = match redemption_rate.checked_shares_to_deposits(SharesAmount(shares)) {
            Some(v) => {
                if v.0 > 0 {
                    v.0
                } else {
                    return Err(Error::RedemptionTooSmall);
                }
            },
            None => {
                return Err(Error::RedemptionTooSmall);
            },
        };
        let pending_batch_id = pending_batch_id(self.unbonding_log);
        let total_unbond_value = match self.unbonding_log.batch_unbond_value(pending_batch_id) {
            Some(v) => v.0,
            None => 0,
        } + unbond_value;
        let recipient_unbond_value = match self.unbonding_log.unbonded_value_in_batch(recipient.as_str(), pending_batch_id) {
            Some(v) => v.0,
            None => 0,
        } + unbond_value;
        let mut cmds: Vec<Cmd> = vec![
            Cmd::UnbondingLog(UnbondingLogSet::BatchTotalUnbondValue { batch: pending_batch_id, value: DepositValue(total_unbond_value) }),
            Cmd::UnbondingLog(UnbondingLogSet::UnbondedValueInBatch {
                recipient: recipient.clone(),
                batch: pending_batch_id,
                value: DepositValue(recipient_unbond_value),
            }),
            Cmd::Mint(MintCmd::Burn { amount: SharesAmount(shares) }),
        ];
        let ghost base = cmds@;
        match self.unbonding_log.last_entered_batch(recipient.as_str()) {
            Some(batch_id) => {
                if batch_id != pending_batch_id {
                    cmds.push(Cmd::UnbondingLog(UnbondingLogSet::LastEnteredBatch { recipient: recipient.clone(), batch: pending_batch_id }));
                    cmds.push(Cmd::UnbondingLog(UnbondingLogSet::NextEnteredBatch {
                        recipient: recipient.clone(),
                        previous: batch_id,
                        next: pending_batch_id,
                    }));
                }
            },
            None => {
                cmds.push(Cmd::UnbondingLog(UnbondingLogSet::LastEnteredBatch { recipient: recipient.clone(), batch: pending_batch_id }));
                cmds.push(Cmd::UnbondingLog(UnbondingLogSet::FirstEnteredBatch { recipient: recipient.clone(), batch: pending_batch_id }));
            },
        }
        let ghost with_entered = cmds@;
        match self.strategy.unbond(DepositValue(total_unbond_value)) {
            UnbondReadyStatus::Ready { amount, epoch } => {
                cmds.push(Cmd::UnbondingLog(UnbondingLogSet::LastCommittedBatchId(pending_batch_id)));
                cmds.push(Cmd::UnbondingLog(UnbondingLogSet::BatchClaimableAmount { batch: pending_batch_id, amount }));
                cmds.push(Cmd::UnbondingLog(UnbondingLogSet::BatchEpoch { batch: pending_batch_id, epoch }));
                cmds.push(Cmd::Strategy(StrategyCmd::Unbond { value: DepositValue(total_unbond_value) }));
            },
            UnbondReadyStatus::Later(Some(hint)) => {
                cmds.push(Cmd::UnbondingLog(UnbondingLogSet::BatchHint { batch: pending_batch_id, hint }));
            },
            UnbondReadyStatus::Later(None) => {},
        }
        proof {
            let spec_cmds = self.spec_redeem_cmds(shares, recipient);
            assert(cmds@ =~= spec_cmds);
        }
        Ok(cmds)
    }

    /// Claim every unbonded batch of `recipient` whose unbonding has ended, in one transfer.
    pub fn claim(&self, recipient: Recipient) -> (r: Result<Vec<Cmd>, Error>)
        requires
            claim_ok(self.log(), recipient@, self.strategy().spec_now()),
        ensures
            match claim_outcome(self.log(), recipient@, self.strategy().spec_now()) {
                None => r == Err::<Vec<Cmd>, Error>(Error::NothingToClaim),
                Some((total, last)) => r matches Ok(cmds) && cmds@ == seq![
                    Cmd::UnbondingLog(UnbondingLogSet::LastClaimedBatch { recipient, batch: last }),
                    Cmd::Strategy(StrategyCmd::SendClaimed { amount: ClaimAmount(total as u128), recipient }),
                ],
            },
    {
        let mut total_claimable_amount: u128 = 0;
        let mut last_claimed_id: Option<BatchId> = None;
        let mut iter = ClaimableBatchIter::new(recipient.as_str(), self.unbonding_log, self.strategy);
        let ghost rec = recipient@;
        let ghost now = self.strategy().spec_now();
        loop
            invariant_except_break
                iter.recipient() == rec,
                iter.log() == self.log(),
                iter.now() == now,
                claim_ok(self.log(), rec, now),
                iter.highest() is None ==> total_claimable_amount == 0 && last_claimed_id is None && iter.next_id() is None,
                iter.highest() matches Some(h) ==> (iter.next_id() matches Some(n) ==> n <= h && walk_ok(self.log(), rec, now, h, n)),
                claim_outcome(self.log(), rec, now) == finish_claim(
                    iter_remaining(self.log(), rec, now, iter.highest(), iter.next_id(), total_claimable_amount as nat, last_claimed_id),
                ),
            ensures
                claim_outcome(self.log(), rec, now) == finish_claim((total_claimable_amount as nat, last_claimed_id)),
            decreases iter_measure(iter.highest(), iter.next_id()),
        {
            match iter.next() {
                None => {
                    break;
                },
                Some((amount, id)) => {
                    match total_claimable_amount.checked_add(amount.0) {
                        // A total beyond the max representable value is split: stop at the previous batch.
                        None => {
                            break;
                        },
                        Some(total) => {
                            total_claimable_amount = total;
                            last_claimed_id = Some(id);
                        },
                    }
                },
            }
        }
        let last_claimed_id = match last_claimed_id {
            Some(id) => id,
            None => {
                return Err(Error::NothingToClaim);
            },
        };
        Ok(vec![
            Cmd::UnbondingLog(UnbondingLogSet::LastClaimedBatch { recipient: recipient.clone(), batch: last_claimed_id }),
            Cmd::Strategy(StrategyCmd::SendClaimed { amount: ClaimAmount(total_claimable_amount), recipient }),
        ])
    }

    pub fn start_unbond(&self) -> (r: Result<Vec<Cmd>, Error>)
        requires
            pending_batch_ok(self.log()),
        ensures
            ({
                let pending = spec_pending_batch_id(self.log()) as u64;
                match self.log().spec_batch_unbond_value(pending) {
                    None => r == Err::<Vec<Cmd>, Error>(Error::NothingToUnbond),
                    Some(value) => match self.strategy().spec_unbond(value) {
                        UnbondReadyStatus::Later(_) => r == Err::<Vec<Cmd>, Error>(Error::UnbondNotReady),
                        UnbondReadyStatus::Ready { amount, epoch } => r matches Ok(cmds) && cmds@ == seq![
                            Cmd::UnbondingLog(UnbondingLogSet::LastCommittedBatchId(pending)),
                            Cmd::UnbondingLog(UnbondingLogSet::BatchClaimableAmount { batch: pending, amount }),
                            Cmd::UnbondingLog(UnbondingLogSet::BatchEpoch { batch: pending, epoch }),
                            Cmd::Strategy(StrategyCmd::Unbond { value: DepositValue(value) }),
                        ],
                    },
                }
            }),
    {
        let pending_batch_id = pending_batch_id(self.unbonding_log);
        let pending_unbond_value = match self.unbonding_log.batch_unbond_value(pending_batch_id) {
            Some(v) => v,
            None => {
                return Err(Error::NothingToUnbond);
            },
        };
        let (amount, epoch) = match self.strategy.unbond(pending_unbond_value) {
            UnbondReadyStatus::Ready { amount, epoch } => (amount, epoch),
            UnbondReadyStatus::Later(_) => {
                return Err(Error::UnbondNotReady);
            },
        };
        Ok(vec![
            Cmd::UnbondingLog(UnbondingLogSet::LastCommittedBatchId(pending_batch_id)),
            Cmd::UnbondingLog(UnbondingLogSet::BatchClaimableAmount { batch: pending_batch_id, amount }),
            Cmd::UnbondingLog(UnbondingLogSet::BatchEpoch { batch: pending_batch_id, epoch }),
            Cmd::Strategy(StrategyCmd::Unbond { value: pending_unbond_value }),
        ])
    }
}


/// The amount `recipient` can claim from a committed batch: its share of the batch's claimable amount.
pub open spec fn batch_claim<U: UnbondingLog>(log: &U, recipient: Seq<char>, batch: BatchId) -> nat {
    let own = log.spec_unbonded_value_in_batch(recipient, batch).unwrap() as nat;
    let total = log.spec_batch_unbond_value(batch).unwrap() as nat;
    let claimable = log.spec_batch_claimable_amount(batch).unwrap() as nat;
    apply_raw(ratio_raw(own, total).unwrap(), claimable).unwrap()
}

/// The next batch the recipient entered after `batch`, if it is at most `highest`.
pub open spec fn next_within<U: UnbondingLog>(log: &U, recipient: Seq<char>, batch: BatchId, highest: BatchId) -> Option<BatchId> {
    match log.spec_next_entered_batch(recipient, batch) {
        Some(n) => if n <= highest {
            Some(n)
        } else {
            None
        },
        None => None,
    }
}

/// The batches from `batch` on can be claimed without breaking the log's invariants: each visited batch has an
/// epoch, an ended batch has the values its claim is computed from, and entered batches follow in increasing order.
pub open spec fn walk_ok<U: UnbondingLog>(log: &U, recipient: Seq<char>, now: Now, highest: BatchId, batch: BatchId) -> bool
    decreases highest - batch,
{
    match log.spec_committed_batch_epoch(batch) {
        None => false,
        Some(epoch) => epoch.end > now || {
            &&& log.spec_unbonded_value_in_batch(recipient, batch) is Some
            &&& log.spec_batch_unbond_value(batch) is Some
            &&& log.spec_batch_claimable_amount(batch) is Some
            &&& ratio_raw(
                log.spec_unbonded_value_in_batch(recipient, batch).unwrap() as nat,
                log.spec_batch_unbond_value(batch).unwrap() as nat,
            ) is Some
            &&& apply_raw(
                ratio_raw(
                    log.spec_unbonded_value_in_batch(recipient, batch).unwrap() as nat,
                    log.spec_batch_unbond_value(batch).unwrap() as nat,
                ).unwrap(),
                log.spec_batch_claimable_amount(batch).unwrap() as nat,
            ) is Some
            &&& match next_within(log, recipient, batch, highest) {
                Some(n) => n > batch && walk_ok(log, recipient, now, highest, n),
                None => true,
            }
        },
    }
}

/// The running (total, last claimed batch) after walking the batches from `batch` on: the walk stops at a batch whose
/// unbonding has not ended and before a claim that would overflow the total.
pub open spec fn walk_claim<U: UnbondingLog>(
    log: &U,
    recipient: Seq<char>,
    now: Now,
    highest: BatchId,
    batch: BatchId,
    total: nat,
    last: Option<BatchId>,
) -> (nat, Option<BatchId>)
    decreases highest - batch,
{
    match log.spec_committed_batch_epoch(batch) {
        None => (total, last),
        Some(epoch) => if epoch.end > now {
            (total, last)
        } else if total + batch_claim(log, recipient, batch) > u128::MAX {
            (total, last)
        } else {
            let t = total + batch_claim(log, recipient, batch);
            match next_within(log, recipient, batch, highest) {
                Some(n) => if n > batch {
                    walk_claim(log, recipient, now, highest, n, t, Some(batch))
                } else {
                    (t, Some(batch))
                },
                None => (t, Some(batch)),
            }
        },
    }
}

/// The highest claimable batch and the first batch to claim, if any.
pub open spec fn claim_start<U: UnbondingLog>(log: &U, recipient: Seq<char>) -> Option<(BatchId, BatchId)> {
    match (log.spec_last_entered_batch(recipient), log.spec_last_committed_batch_id()) {
        (Some(last_entered), Some(last_committed)) => {
            let highest = if last_entered > last_committed {
                last_committed
            } else {
                last_entered
            };
            let first = match log.spec_last_claimed_batch(recipient) {
                Some(last_claimed) => log.spec_next_entered_batch(recipient, last_claimed),
                None => log.spec_first_entered_batch(recipient),
            };
            match first {
                Some(f) => if f > highest {
                    None
                } else {
                    Some((highest, f))
                },
                None => None,
            }
        },
        _ => None,
    }
}

/// A claim by `recipient` finds the log consistent with its invariants.
pub open spec fn claim_ok<U: UnbondingLog>(log: &U, recipient: Seq<char>, now: Now) -> bool {
    &&& (log.spec_last_entered_batch(recipient) is Some && log.spec_last_committed_batch_id() is Some
        && log.spec_last_claimed_batch(recipient) is None ==> log.spec_first_entered_batch(recipient) is Some)
    &&& (claim_start(log, recipient) matches Some((h, f)) ==> walk_ok(log, recipient, now, h, f))
}

/// What remains of a claim walk for an iterator in the given state.
pub open spec fn iter_remaining<U: UnbondingLog>(
    log: &U,
    recipient: Seq<char>,
    now: Now,
    highest: Option<BatchId>,
    next: Option<BatchId>,
    total: nat,
    last: Option<BatchId>,
) -> (nat, Option<BatchId>) {
    match highest {
        None => match claim_start(log, recipient) {
            None => (total, last),
            Some((h, f)) => walk_claim(log, recipient, now, h, f, total, last),
        },
        Some(h) => match next {
            None => (total, last),
            Some(n) => walk_claim(log, recipient, now, h, n, total, last),
        },
    }
}

/// The (total, last claimed batch) of a claim, `None` when there is nothing to claim.
pub open spec fn finish_claim(walk: (nat, Option<BatchId>)) -> Option<(nat, BatchId)> {
    match walk.1 {
        Some(id) => Some((walk.0, id)),
        None => None,
    }
}

/// The outcome of a claim by `recipient` at `now`.
pub open spec fn claim_outcome<U: UnbondingLog>(log: &U, recipient: Seq<char>, now: Now) -> Option<(nat, BatchId)> {
    finish_claim(iter_remaining(log, recipient, now, None, None, 0, None))
}

/// Two logs agree on what a claim by `recipient` reads of the batches after `after`: their epochs, values and
/// claimable amounts, the recipient's values in them, and the recipient's links between entered batches from
/// `after` on.
pub open spec fn agree_after<U: UnbondingLog, U2: UnbondingLog>(log1: &U, log2: &U2, recipient: Seq<char>, after: BatchId) -> bool {
    &&& forall|b: BatchId| b > after ==> #[trigger] log1.spec_committed_batch_epoch(b) == log2.spec_committed_batch_epoch(b)
    &&& forall|b: BatchId| b > after ==> #[trigger] log1.spec_batch_unbond_value(b) == log2.spec_batch_unbond_value(b)
    &&& forall|b: BatchId| b > after ==> #[trigger] log1.spec_batch_claimable_amount(b) == log2.spec_batch_claimable_amount(b)
    &&& forall|b: BatchId|
        b > after ==> #[trigger] log1.spec_unbonded_value_in_batch(recipient, b) == log2.spec_unbonded_value_in_batch(
            recipient,
            b,
        )
    &&& forall|b: BatchId|
        b >= after ==> #[trigger] log1.spec_next_entered_batch(recipient, b) == log2.spec_next_entered_batch(recipient, b)
}

/// The walk from a batch after `after` reads nothing at or before `after`.
proof fn lemma_walk_claim_after<U: UnbondingLog, U2: UnbondingLog>(
    log1: &U,
    log2: &U2,
    recipient: Seq<char>,
    now: Now,
    highest: BatchId,
    batch: BatchId,
    total: nat,
    last: Option<BatchId>,
    after: BatchId,
)
    requires
        batch > after,
        agree_after(log1, log2, recipient, after),
    ensures
        walk_claim(log1, recipient, now, highest, batch, total, last) == walk_claim(
            log2,
            recipient,
            now,
            highest,
            batch,
            total,
            last,
        ),
    decreases highest - batch,
{
    assert(log1.spec_committed_batch_epoch(batch) == log2.spec_committed_batch_epoch(batch));
    assert(log1.spec_batch_unbond_value(batch) == log2.spec_batch_unbond_value(batch));
    assert(log1.spec_batch_claimable_amount(batch) == log2.spec_batch_claimable_amount(batch));
    assert(log1.spec_unbonded_value_in_batch(recipient, batch) == log2.spec_unbonded_value_in_batch(recipient, batch));
    assert(log1.spec_next_entered_batch(recipient, batch) == log2.spec_next_entered_batch(recipient, batch));
    assert(batch_claim(log1, recipient, batch) == batch_claim(log2, recipient, batch));
    assert(next_within(log1, recipient, batch, highest) == next_within(log2, recipient, batch, highest));
    match log1.spec_committed_batch_epoch(batch) {
        None => {},
        Some(epoch) => if epoch.end <= now && total + batch_claim(log1, recipient, batch) <= u128::MAX {
            let t = total + batch_claim(log1, recipient, batch);
            match next_within(log1, recipient, batch, highest) {
                Some(n) => if n > batch {
                    lemma_walk_claim_after(log1, log2, recipient, now, highest, n, t, Some(batch), after);
                },
                None => {},
            }
        },
    }
}

/// Once a recipient has claimed, a later claim pays only for batches entered after the last one claimed: logs that
/// differ only in the batches at or before it (and in which batch the recipient entered first) give the same claim,
/// wherever the recipient's batches were entered in increasing order.
pub proof fn law_claim_skips_claimed_batches<U: UnbondingLog, U2: UnbondingLog>(
    log1: &U,
    log2: &U2,
    recipient: Seq<char>,
    now: Now,
    last_claimed: BatchId,
)
    requires
        log1.spec_last_claimed_batch(recipient) == Some(last_claimed),
        log2.spec_last_claimed_batch(recipient) == Some(last_claimed),
        log1.spec_last_entered_batch(recipient) == log2.spec_last_entered_batch(recipient),
        log1.spec_last_committed_batch_id() == log2.spec_last_committed_batch_id(),
        agree_after(log1, log2, recipient, last_claimed),
        log1.spec_next_entered_batch(recipient, last_claimed) matches Some(n) ==> n > last_claimed,
    ensures
        claim_outcome(log1, recipient, now) == claim_outcome(log2, recipient, now),
{
    assert(log1.spec_next_entered_batch(recipient, last_claimed) == log2.spec_next_entered_batch(recipient, last_claimed));
    assert(claim_start(log1, recipient) == claim_start(log2, recipient));
    if let Some((h, f)) = claim_start(log1, recipient) {
        lemma_walk_claim_after(log1, log2, recipient, now, h, f, 0, None, last_claimed);
    }
}

/// A measure that each step of the claim iterator decreases.
pub open spec fn iter_measure(highest: Option<BatchId>, next: Option<BatchId>) -> nat {
    match highest {
        None => 0x2_0000_0000_0000_0000,
        Some(h) => match next {
            Some(n) => if n <= h {
                (h - n + 1) as nat
            } else {
                0
            },
            None => 0,
        },
    }
}

/// Walks the batches a recipient can claim, in the order they were entered.
pub struct ClaimableBatchIter<'a, U: UnbondingLog> {
    recipient: &'a str,
    unbonding_log: &'a U,
    now: Now,
    highest_id: Option<BatchId>,
    next_id: Option<BatchId>,
}

impl<'a, U: UnbondingLog> ClaimableBatchIter<'a, U> {
    pub closed spec fn recipient(&self) -> Seq<char> {
        self.recipient@
    }

    pub closed spec fn log(&self) -> &'a U {
        self.unbonding_log
    }

    pub closed spec fn now(&self) -> Now {
        self.now
    }

    /// The highest batch the walk may reach, once started.
    pub closed spec fn highest(&self) -> Option<BatchId> {
        self.highest_id
    }

    /// The batch to try next, once started.
    pub closed spec fn next_id(&self) -> Option<BatchId> {
        self.next_id
    }

    /// An iterator that has not started.
    pub fn new<S: Strategy>(recipient: &'a str, unbonding_log: &'a U, strategy: &S) -> (r: Self)
        ensures
            r.recipient() == recipient@,
            r.log() == unbonding_log,
            r.now() == strategy.spec_now(),
            r.highest() is None,
            r.next_id() is None,
    {
        Self { recipient, unbonding_log, now: strategy.now(), highest_id: None, next_id: None }
    }

    fn try_start(&mut self) -> (r: Option<(ClaimAmount, BatchId)>)
        requires
            old(self).highest() is None,
            old(self).next_id() is None,
            claim_ok(old(self).log(), old(self).recipient(), old(self).now()),
        ensures
            final(self).recipient() == old(self).recipient(),
            final(self).log() == old(self).log(),
            final(self).now() == old(self).now(),
            match claim_start(old(self).log(), old(self).recipient()) {
                None => r is None && final(self).next_id() is None,
                Some((h, f)) => final(self).highest() == Some(h) && old(self).stepped(h, f, None, r, *final(self)),
            },
    {
        let last_entered = match self.unbonding_log.last_entered_batch(self.recipient) {
            Some(b) => b,
            None => {
                return None;
            },
        };
        let last_committed_batch = match self.unbonding_log.last_committed_batch_id() {
            Some(b) => b,
            None => {
                return None;
            },
        };
        let highest_id = if last_entered > last_committed_batch {
            last_committed_batch
        } else {
            last_entered
        };
        self.highest_id = Some(highest_id);
        let first_id = match self.unbonding_log.last_claimed_batch(self.recipient) {
            Some(last_claimed_batch) => {
                match self.unbonding_log.next_entered_batch(self.recipient, last_claimed_batch) {
                    Some(next_id) => next_id,
                    None => {
                        return None;
                    },
                }
            },
            None => match self.unbonding_log.first_entered_batch(self.recipient) {
                Some(b) => b,
                None => {
                    return None;
                },
            },
        };
        // first id could be the currently pending batch
        if first_id > highest_id {
            return None;
        }
        self.try_batch(highest_id, first_id)
    }

    /// One step of the walk at `batch`: `r` and the next batch of `after` are those the walk gives, starting from `next`.
    pub open spec fn stepped(
        self,
        highest: BatchId,
        batch: BatchId,
        next: Option<BatchId>,
        r: Option<(ClaimAmount, BatchId)>,
        after: Self,
    ) -> bool {
        match self.log().spec_committed_batch_epoch(batch) {
            None => false,
            Some(epoch) => if epoch.end > self.now() {
                r is None && after.next_id() == next
            } else {
                &&& r == Some((ClaimAmount(batch_claim(self.log(), self.recipient(), batch) as u128), batch))
                &&& after.next_id() == next_within(self.log(), self.recipient(), batch, highest)
            },
        }
    }

    fn try_batch(&mut self, highest_id: BatchId, batch_id: BatchId) -> (r: Option<(ClaimAmount, BatchId)>)
        requires
            walk_ok(old(self).log(), old(self).recipient(), old(self).now(), highest_id, batch_id),
        ensures
            final(self).recipient() == old(self).recipient(),
            final(self).log() == old(self).log(),
            final(self).now() == old(self).now(),
            final(self).highest() == old(self).highest(),
            old(self).stepped(highest_id, batch_id, old(self).next_id(), r, *final(self)),
    {
        let epoch = match self.unbonding_log.committed_batch_epoch(batch_id) {
            Some(e) => e,
            None => {
                return None;
            },
        };
        if epoch.end > self.now {
            return None;
        }
        self.next_id = match self.unbonding_log.next_entered_batch(self.recipient, batch_id) {
            Some(n) => if n <= highest_id {
                Some(n)
            } else {
                None
            },
            None => None,
        };
        let recipient_unbonded = self.unbonding_log.unbonded_value_in_batch(self.recipient, batch_id).unwrap().0;
        let total_unbonded = self.unbonding_log.batch_unbond_value(batch_id).unwrap().0;
        let total_claimable = self.unbonding_log.batch_claimable_amount(batch_id).unwrap().0;
        let rate = Rate::from_ratio(recipient_unbonded, total_unbonded).unwrap();
        let claim_amount = rate.apply_u128(total_claimable).unwrap();
        Some((ClaimAmount(claim_amount), batch_id))
    }

    /// The next claimable (amount, batch), `None` once the walk ends.
    pub fn next(&mut self) -> (r: Option<(ClaimAmount, BatchId)>)
        requires
            claim_ok(old(self).log(), old(self).recipient(), old(self).now()),
            old(self).highest() is None ==> old(self).next_id() is None,
            old(self).highest() matches Some(h) ==> (old(self).next_id() matches Some(n) ==> n <= h && walk_ok(
                old(self).log(),
                old(self).recipient(),
                old(self).now(),
                h,
                n,
            )),
        ensures
            final(self).recipient() == old(self).recipient(),
            final(self).log() == old(self).log(),
            final(self).now() == old(self).now(),
            match old(self).highest() {
                None => match claim_start(old(self).log(), old(self).recipient()) {
                    None => r is None && final(self).next_id() is None,
                    Some((h, f)) => final(self).highest() == Some(h) && old(self).stepped(h, f, None, r, *final(self)),
                },
                Some(h) => final(self).highest() == Some(h) && match old(self).next_id() {
                    None => r is None && final(self).next_id() is None,
                    Some(n) => old(self).stepped(h, n, Some(n), r, *final(self)),
                },
            },
    {
        let highest_id = match self.highest_id {
            Some(h) => h,
            None => {
                return self.try_start();
            },
        };
        let next_batch = match self.next_id {
            Some(n) => n,
            None => {
                return None;
            },
        };
        self.try_batch(highest_id, next_batch)
    }
}

/// Powers of ten up to 10^18 fit a `u128`.
pub proof fn lemma_pow10_bound(e: nat)
    requires
        e <= 18,
    ensures
        pow(10, e) <= 1_000_000_000_000_000_000,
        pow(10, e) >= 1,
{
    vstd::arithmetic::power::lemma_pow_increases(10, e, 18);
    vstd::arithmetic::power::lemma_pow_positive(10, e);
    reveal_with_fuel(pow, 19);
}

} // verus!
