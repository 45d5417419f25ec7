//! Vault positions (pools of shares that back synthetic debt) and CDPs (collateralised debt positions).
use vstd::arithmetic::div_mod::lemma_div_is_ordered;
use vstd::arithmetic::mul::lemma_mul_inequality;
use vstd::prelude::*;

use crate::num::{fixed_mul, w128, w256, FixedU256, U256};
use crate::rate::{lemma_apply_at_most_one, lemma_fixed_ratio, Rate};
use crate::vault::{
    deposits_to_shares_value, lemma_round_trip_deposits, shares_to_deposits_value,
    DepositValue, RedemptionRate, SharesAmount,
};

use super::rates::{AdvanceFee, AmoAllocation, CollateralYieldFee, MaxLtv, ReserveYieldFee};

verus! {

/// Vault shares have suffered a loss in value.
#[derive(Debug, Clone, Copy, PartialEq, Eq, Structural)]
pub struct LossError;

pub type CollateralPoolShares = SharesAmount;

pub type ReservePoolShares = SharesAmount;

pub type TreasuryShares = SharesAmount;

pub type AmoShares = SharesAmount;

pub type Collateral = u128;

pub type Debt = u128;

pub type Credit = u128;

pub type FeeAmount = u128;

/// A pool of vault shares and the amount of collateral (the quota) they are owed.
#[derive(Debug, Clone, Copy)]
pub struct SharesPool {
    pub shares: SharesAmount,
    pub quota: Collateral,
}

/// Σ x/y - where x is a debt payment and y is the collateral balance at the time of payment
#[derive(Debug, Clone, Copy)]
pub struct SumPaymentRatio(FixedU256);

impl SumPaymentRatio {
    /// The raw Q128.128 value.
    pub closed spec fn raw_value(self) -> nat {
        self.0.raw_value()
    }

    pub fn raw(x: U256) -> (r: Self)
        ensures
            r.raw_value() == x.value(),
    {
        Self(FixedU256::raw(x))
    }

    pub fn zero() -> (r: SumPaymentRatio)
        ensures
            r.raw_value() == 0,
    {
        Self(FixedU256::zero())
    }

    pub fn fixed_u256(self) -> (r: FixedU256)
        ensures
            r.raw_value() == self.raw_value(),
    {
        self.0
    }

    pub fn into_raw(self) -> (r: U256)
        ensures
            r.value() == self.raw_value(),
    {
        self.0.into_raw()
    }

    /// Numeric equality.
    pub fn same_as(self, other: Self) -> (r: bool)
        ensures
            r == (self.raw_value() == other.raw_value()),
    {
        self.0.equals(other.0)
    }
}

/// A vault's position as plain numbers.
pub struct VaultView {
    pub collateral_shares: nat,
    pub collateral_quota: nat,
    pub reserve_shares: nat,
    pub reserve_quota: nat,
    pub treasury_shares: nat,
    pub amo_shares: nat,
    pub spr: nat,
}

/// A CDP as plain numbers.
pub struct CdpView {
    pub collateral: nat,
    pub debt: nat,
    pub credit: nat,
    pub spr: nat,
}

/// The position of a vault: the collateral pool (backing CDPs), the reserve pool, unclaimed treasury and AMO shares,
/// and the sum payment ratio.
#[derive(Debug)]
pub struct Vault {
    pub collateral_pool: SharesPool,
    pub reserve_pool: SharesPool,
    pub treasury_shares: TreasuryShares,
    pub amo_shares: AmoShares,
    pub spr: SumPaymentRatio,
}

impl View for Vault {
    type V = VaultView;

    open spec fn view(&self) -> VaultView {
        VaultView {
            collateral_shares: self.collateral_pool.shares.0 as nat,
            collateral_quota: self.collateral_pool.quota as nat,
            reserve_shares: self.reserve_pool.shares.0 as nat,
            reserve_quota: self.reserve_pool.quota as nat,
            treasury_shares: self.treasury_shares.0 as nat,
            amo_shares: self.amo_shares.0 as nat,
            spr: self.spr.raw_value(),
        }
    }
}

impl Clone for Vault {
    fn clone(&self) -> (r: Self)
        ensures
            r@ == self@,
    {
        Vault {
            collateral_pool: self.collateral_pool,
            reserve_pool: self.reserve_pool,
            treasury_shares: self.treasury_shares,
            amo_shares: self.amo_shares,
            spr: self.spr,
        }
    }
}

/// A collateralised debt position: deposited collateral, debt (advanced synthetics) and credit (overpaid debt).
#[derive(Debug)]
pub struct Cdp {
    pub collateral: Collateral,
    pub debt: Debt,
    pub credit: Credit,
    pub spr: SumPaymentRatio,
}

impl View for Cdp {
    type V = CdpView;

    open spec fn view(&self) -> CdpView {
        CdpView {
            collateral: self.collateral as nat,
            debt: self.debt as nat,
            credit: self.credit as nat,
            spr: self.spr.raw_value(),
        }
    }
}

impl Clone for Cdp {
    fn clone(&self) -> (r: Self)
        ensures
            r@ == self@,
    {
        Cdp { collateral: self.collateral, debt: self.debt, credit: self.credit, spr: self.spr }
    }
}

/// The deposit value of `shares` at `rate`: the redemption rate's conversion, `shares * deposits / shares_issued`
/// rounded down.
pub open spec fn value_of(rate: RedemptionRate, shares: nat) -> nat {
    shares_to_deposits_value(shares, rate.shares(), rate.deposits())
}

/// The shares worth `value` at `rate`: the redemption rate's conversion, `value * shares_issued / deposits` rounded
/// down.
pub open spec fn shares_of(rate: RedemptionRate, value: nat) -> nat {
    deposits_to_shares_value(value, rate.shares(), rate.deposits())
}

/// `x * to_total / from_total`, rounded down, is monotonic in `x`.
pub proof fn lemma_convert_monotonic(x1: nat, x2: nat, from_total: nat, to_total: nat)
    requires
        x1 <= x2,
        from_total > 0,
    ensures
        x1 * to_total / from_total <= x2 * to_total / from_total,
{
    lemma_mul_inequality(x1 as int, x2 as int, to_total as int);
    lemma_div_is_ordered((x1 * to_total) as int, (x2 * to_total) as int, from_total as int);
}

/// The deposit value of `shares` at `rate`, `None` when it does not fit `u128`.
fn checked_value_of(rate: RedemptionRate, shares: u128) -> (r: Option<u128>)
    requires
        rate.wf(),
    ensures
        r is Some <==> value_of(rate, shares as nat) <= u128::MAX,
        r matches Some(v) ==> v == value_of(rate, shares as nat),
{
    proof {
        rate.lemma_wf();
    }
    match rate.checked_shares_to_deposits(SharesAmount(shares)) {
        Some(v) => Some(v.0),
        None => None,
    }
}

/// The shares worth `value` at `rate`, `None` when they do not fit `u128`.
fn checked_shares_of(rate: RedemptionRate, value: u128) -> (r: Option<u128>)
    requires
        rate.wf(),
    ensures
        r is Some <==> shares_of(rate, value as nat) <= u128::MAX,
        r matches Some(s) ==> s == shares_of(rate, value as nat),
{
    proof {
        rate.lemma_wf();
    }
    match rate.checked_deposits_to_shares(DepositValue(value)) {
        Some(s) => Some(s.0),
        None => None,
    }
}

/// The deposit value of `shares` at `rate`, where it fits `u128`.
fn value_of_shares(rate: RedemptionRate, shares: u128) -> (r: u128)
    requires
        rate.wf(),
        value_of(rate, shares as nat) <= u128::MAX,
    ensures
        r == value_of(rate, shares as nat),
{
    match checked_value_of(rate, shares) {
        Some(v) => v,
        None => 0,
    }
}

/// The shares worth `value` at `rate`, where they fit `u128`.
fn shares_of_value(rate: RedemptionRate, value: u128) -> (r: u128)
    requires
        rate.wf(),
        shares_of(rate, value as nat) <= u128::MAX,
    ensures
        r == shares_of(rate, value as nat),
{
    match checked_shares_of(rate, value) {
        Some(s) => s,
        None => 0,
    }
}

/// Converting value to shares and back never gives more than the value.
pub proof fn lemma_round_trip_value(rate: RedemptionRate, value: nat)
    requires
        rate.wf(),
    ensures
        value_of(rate, shares_of(rate, value)) <= value,
{
    rate.lemma_wf();
    lemma_round_trip_deposits(value, rate.shares(), rate.deposits());
}

/// The surplus shares of a pool: those beyond what its quota is worth. `Err` on a loss; `None` (the outer one)
/// where the pool's value overflows `u128`.
pub open spec fn spec_pool_surplus(shares: nat, quota: nat, rate: RedemptionRate) -> Option<Result<Option<nat>, LossError>> {
    if shares == 0 {
        Some(Ok(None))
    } else if value_of(rate, shares) > u128::MAX {
        None
    } else if value_of(rate, shares) < quota {
        Some(Err(LossError))
    } else if value_of(rate, shares) == quota {
        Some(Ok(None))
    } else {
        Some(Ok(Some(shares_of(rate, (value_of(rate, shares) - quota) as nat))))
    }
}

/// The surplus of a pool never exceeds its shares.
pub proof fn lemma_surplus_le_shares(shares: nat, quota: nat, rate: RedemptionRate)
    requires
        rate.wf(),
        shares <= u128::MAX,
        value_of(rate, shares) > quota,
    ensures
        shares_of(rate, (value_of(rate, shares) - quota) as nat) <= shares,
{
    rate.lemma_wf();
    let (s, d) = (rate.shares(), rate.deposits());
    let v = value_of(rate, shares);
    lemma_convert_monotonic((v - quota) as nat, v, d, s);
    lemma_round_trip_deposits(shares, d, s);
}

/// A surplus worth of shares split between treasury, AMO and reserve pool.
pub struct Payments {
    pub treasury_shares: SharesAmount,
    pub amo_shares: SharesAmount,
    pub reserve_shares: SharesAmount,
}

/// (treasury, amo, reserve) shares of a surplus: the treasury fee is taken first, then the AMO allocation of the rest.
pub open spec fn spec_payments(surplus: nat, treasury_fee: nat, amo_allocation: nat) -> (nat, nat, nat) {
    let treasury = treasury_fee * surplus / w128();
    let leftover = (surplus - treasury) as nat;
    let amo = amo_allocation * leftover / w128();
    (treasury, amo, (leftover - amo) as nat)
}

/// The payments of a surplus add up to the surplus.
pub proof fn lemma_payments_sum(surplus: nat, treasury_fee: nat, amo_allocation: nat)
    requires
        surplus <= u128::MAX,
        treasury_fee <= w128(),
        amo_allocation <= w128(),
    ensures
        ({
            let (t, a, r) = spec_payments(surplus, treasury_fee, amo_allocation);
            &&& t <= surplus
            &&& a <= surplus - t
            &&& t + a + r == surplus
        }),
{
    lemma_apply_at_most_one(treasury_fee, surplus);
    let leftover = (surplus - treasury_fee * surplus / w128()) as nat;
    lemma_apply_at_most_one(amo_allocation, leftover);
}

fn payments(surplus: SharesAmount, treasury_fee: Rate, amo_allocation: Rate) -> (r: Payments)
    requires
        treasury_fee.raw() <= w128(),
        amo_allocation.raw() <= w128(),
    ensures
        spec_payments(surplus.0 as nat, treasury_fee.raw(), amo_allocation.raw()) == (
            r.treasury_shares.0 as nat,
            r.amo_shares.0 as nat,
            r.reserve_shares.0 as nat,
        ),
{
    proof {
        lemma_payments_sum(surplus.0 as nat, treasury_fee.raw(), amo_allocation.raw());
        lemma_apply_at_most_one(treasury_fee.raw(), surplus.0 as nat);
    }
    let treasury_shares = treasury_fee.apply_u128(surplus.0).unwrap();
    let leftover_shares = surplus.0 - treasury_shares;
    proof {
        lemma_apply_at_most_one(amo_allocation.raw(), leftover_shares as nat);
    }
    let amo_shares = amo_allocation.apply_u128(leftover_shares).unwrap();
    let reserve_shares = leftover_shares - amo_shares;
    Payments {
        treasury_shares: SharesAmount(treasury_shares),
        amo_shares: SharesAmount(amo_shares),
        reserve_shares: SharesAmount(reserve_shares),
    }
}

/// The vault after the payments are applied, and the debt payment they make: the reserve and AMO payments' value.
/// `None` on an overflow.
pub open spec fn spec_apply_payments(v: VaultView, p: (nat, nat, nat), rate: RedemptionRate) -> Option<(VaultView, nat)> {
    let (t, a, r) = p;
    let reserve_value = value_of(rate, r);
    let amo_value = value_of(rate, a);
    if v.treasury_shares + t > u128::MAX || v.amo_shares + a > u128::MAX || v.reserve_shares + r > u128::MAX
        || reserve_value > u128::MAX || v.reserve_quota + reserve_value > u128::MAX || amo_value > u128::MAX
        || reserve_value + amo_value > u128::MAX {
        None
    } else {
        Some(
            (
                VaultView {
                    reserve_shares: v.reserve_shares + r,
                    reserve_quota: v.reserve_quota + reserve_value,
                    treasury_shares: v.treasury_shares + t,
                    amo_shares: v.amo_shares + a,
                    ..v
                },
                reserve_value + amo_value,
            ),
        )
    }
}

fn apply_payments(vault: Vault, payments: Payments, redemption_rate: RedemptionRate) -> (r: (Vault, Debt))
    requires
        redemption_rate.wf(),
        spec_apply_payments(
            vault@,
            (payments.treasury_shares.0 as nat, payments.amo_shares.0 as nat, payments.reserve_shares.0 as nat),
            redemption_rate,
        ) is Some,
    ensures
        spec_apply_payments(
            vault@,
            (payments.treasury_shares.0 as nat, payments.amo_shares.0 as nat, payments.reserve_shares.0 as nat),
            redemption_rate,
        ) == Some((r.0@, r.1 as nat)),
{
    let treasury_shares = vault.treasury_shares.0 + payments.treasury_shares.0;
    let amo_shares = vault.amo_shares.0 + payments.amo_shares.0;
    let reserve_pool_shares = vault.reserve_pool.shares.0 + payments.reserve_shares.0;
    let reserve_share_payment_value = value_of_shares(redemption_rate, payments.reserve_shares.0);
    let reserve_pool_quota = vault.reserve_pool.quota + reserve_share_payment_value;
    let amo_shares_payment_value = value_of_shares(redemption_rate, payments.amo_shares.0);
    let total_debt_payment = reserve_share_payment_value + amo_shares_payment_value;
    (
        Vault {
            collateral_pool: vault.collateral_pool,
            reserve_pool: SharesPool { shares: SharesAmount(reserve_pool_shares), quota: reserve_pool_quota },
            treasury_shares: SharesAmount(treasury_shares),
            amo_shares: SharesAmount(amo_shares),
            spr: vault.spr,
        },
        total_debt_payment,
    )
}

/// The sum payment ratio after a debt payment spread over `collateral`; `None` on overflow.
pub open spec fn spec_increase_spr(spr: nat, payment: nat, collateral: nat) -> Option<nat> {
    if payment == 0 || collateral == 0 {
        Some(spr)
    } else if spr + payment * w128() / collateral < w256() {
        Some(spr + payment * w128() / collateral)
    } else {
        None
    }
}

fn increase_sum_payment_ratio(spr: SumPaymentRatio, payment: Debt, collateral: Collateral) -> (r: SumPaymentRatio)
    requires
        payment > 0,
        collateral > 0,
        spec_increase_spr(spr.raw_value(), payment as nat, collateral as nat) is Some,
    ensures
        spec_increase_spr(spr.raw_value(), payment as nat, collateral as nat) == Some(r.raw_value()),
{
    proof {
        lemma_fixed_ratio(payment as nat, collateral as nat);
    }
    let increase = FixedU256::from_u128(payment).checked_div(FixedU256::from_u128(collateral)).unwrap();
    SumPaymentRatio(spr.fixed_u256().checked_add(increase).unwrap())
}

fn increase_vault_spr(vault: Vault, payment: Debt) -> (r: Vault)
    requires
        spec_increase_spr(vault@.spr, payment as nat, vault@.collateral_quota) is Some,
    ensures
        r@ == (VaultView { spr: spec_increase_spr(vault@.spr, payment as nat, vault@.collateral_quota).unwrap(), ..vault@ }),
{
    if payment == 0 || vault.collateral_pool.quota == 0 {
        return vault;
    }
    let spr = increase_sum_payment_ratio(vault.spr, payment, vault.collateral_pool.quota);
    Vault { spr, ..vault }
}

/// The total payments of a vault update, given the surpluses of the two pools; `None` on overflow.
pub open spec fn spec_total_payments(
    collateral_surplus: Option<nat>,
    reserve_surplus: Option<nat>,
    collateral_fee: nat,
    reserve_fee: nat,
    amo_allocation: nat,
) -> Option<(nat, nat, nat)> {
    match (collateral_surplus, reserve_surplus) {
        (Some(c), None) => Some(spec_payments(c, collateral_fee, amo_allocation)),
        // Yield on reserves alone implies no collateral pool entrants: the treasury takes 100%.
        (None, Some(r)) => Some(spec_payments(r, w128(), amo_allocation)),
        (Some(c), Some(r)) => {
            let (t1, a1, r1) = spec_payments(c, collateral_fee, amo_allocation);
            let (t2, a2, r2) = spec_payments(r, reserve_fee, amo_allocation);
            if t1 + t2 > u128::MAX || a1 + a2 > u128::MAX || r1 + r2 > u128::MAX {
                None
            } else {
                Some((t1 + t2, a1 + a2, r1 + r2))
            }
        },
        (None, None) => Some((0, 0, 0)),
    }
}

/// The vault after an update at `rate`: surpluses leave the pools and are paid to the treasury, the AMO and the
/// reserves, and the debt payment raises the sum payment ratio. The outer `None` marks the inputs on which the
/// arithmetic overflows.
pub open spec fn spec_update_vault(
    v: VaultView,
    rate: Option<RedemptionRate>,
    amo_allocation: nat,
    collateral_fee: nat,
    reserve_fee: nat,
) -> Option<Result<Option<VaultView>, LossError>> {
    match rate {
        None => Some(Ok(None)),
        Some(rate) => match (
            spec_pool_surplus(v.collateral_shares, v.collateral_quota, rate),
            spec_pool_surplus(v.reserve_shares, v.reserve_quota, rate),
        ) {
            (None, _) => None,
            (Some(Err(e)), _) => Some(Err(e)),
            (Some(Ok(_)), None) => None,
            (Some(Ok(_)), Some(Err(e))) => Some(Err(e)),
            (Some(Ok(None)), Some(Ok(None))) => Some(Ok(None)),
            (Some(Ok(cs)), Some(Ok(rs))) => match spec_total_payments(cs, rs, collateral_fee, reserve_fee, amo_allocation) {
                None => None,
                Some(p) => {
                    let after_surplus = VaultView {
                        collateral_shares: (v.collateral_shares - cs.unwrap_or(0)) as nat,
                        reserve_shares: (v.reserve_shares - rs.unwrap_or(0)) as nat,
                        ..v
                    };
                    match spec_apply_payments(after_surplus, p, rate) {
                        None => None,
                        Some((paid, debt_payment)) => match spec_increase_spr(paid.spr, debt_payment, paid.collateral_quota) {
                            None => None,
                            Some(spr) => Some(Ok(Some(VaultView { spr, ..paid }))),
                        },
                    }
                },
            },
        },
    }
}

fn share_pool_surplus(pool: SharesPool, redemption_rate: RedemptionRate) -> (r: Result<Option<SharesAmount>, LossError>)
    requires
        redemption_rate.wf(),
        spec_pool_surplus(pool.shares.0 as nat, pool.quota as nat, redemption_rate) is Some,
    ensures
        spec_pool_surplus(pool.shares.0 as nat, pool.quota as nat, redemption_rate) == Some(
            match r {
                Ok(Some(s)) => Ok::<Option<nat>, LossError>(Some(s.0 as nat)),
                Ok(None) => Ok::<Option<nat>, LossError>(None),
                Err(e) => Err::<Option<nat>, LossError>(e),
            },
        ),
        r matches Ok(Some(s)) ==> s.0 <= pool.shares.0,
{
    if pool.shares.0 == 0 {
        return Ok(None);
    }
    let pool_shares_value = value_of_shares(redemption_rate, pool.shares.0);
    if pool_shares_value < pool.quota {
        return Err(LossError);
    }
    if pool_shares_value == pool.quota {
        return Ok(None);
    }
    let value = pool_shares_value - pool.quota;
    proof {
        lemma_surplus_le_shares(pool.shares.0 as nat, pool.quota as nat, redemption_rate);
    }
    let shares = SharesAmount(shares_of_value(redemption_rate, value));
    Ok(Some(shares))
}

/// If vault shares have increased in value, perform re-balancing accordingly and return `Ok(Some(<updated vault position>))`.
/// In the case of where there is no increase in value, Ok(None) is returned.
/// `Err(LossError)` is returned if a loss in share value in detected.
pub fn update_vault(
    vault: Vault,
    redemption_rate: Option<RedemptionRate>,
    amo_allocation: AmoAllocation,
    collateral_treasury_fee: CollateralYieldFee,
    reserve_treasury_fee: ReserveYieldFee,
) -> (r: Result<Option<Vault>, LossError>)
    requires
        amo_allocation.wf(),
        collateral_treasury_fee.wf(),
        reserve_treasury_fee.wf(),
        redemption_rate matches Some(rate) ==> rate.wf(),
        spec_update_vault(
            vault@,
            redemption_rate,
            amo_allocation.spec_raw_rate(),
            collateral_treasury_fee.spec_raw_rate(),
            reserve_treasury_fee.spec_raw_rate(),
        ) is Some,
    ensures
        spec_update_vault(
            vault@,
            redemption_rate,
            amo_allocation.spec_raw_rate(),
            collateral_treasury_fee.spec_raw_rate(),
            reserve_treasury_fee.spec_raw_rate(),
        ) == Some(
            match r {
                Ok(Some(v)) => Ok::<Option<VaultView>, LossError>(Some(v@)),
                Ok(None) => Ok::<Option<VaultView>, LossError>(None),
                Err(e) => Err::<Option<VaultView>, LossError>(e),
            },
        ),
{
    // Step 1: the redemption rate of the vault shares (without one no update can occur)
    let redemption_rate = match redemption_rate {
        Some(rate) => rate,
        None => {
            return Ok(None);
        },
    };
    // Step 2: any 'surplus' on either pool of shares
    let collateral_pool_surplus = match share_pool_surplus(vault.collateral_pool, redemption_rate) {
        Ok(s) => s,
        Err(e) => {
            return Err(e);
        },
    };
    let reserve_pool_surplus = match share_pool_surplus(vault.reserve_pool, redemption_rate) {
        Ok(s) => s,
        Err(e) => {
            return Err(e);
        },
    };
    if collateral_pool_surplus.is_none() && reserve_pool_surplus.is_none() {
        // no surplus found means no increase in shares value
        return Ok(None);
    }
    let amo_rate = amo_allocation.rate();
    // Step 3: the payments owed to the treasury, the AMO and the reserve pool
    let total_payments = match (collateral_pool_surplus, reserve_pool_surplus) {
        (Some(surplus), None) => payments(surplus, collateral_treasury_fee.rate(), amo_rate),
        (None, Some(surplus)) => payments(surplus, Rate::one(), amo_rate),
        (Some(collateral), Some(reserve)) => {
            let p1 = payments(collateral, collateral_treasury_fee.rate(), amo_rate);
            let p2 = payments(reserve, reserve_treasury_fee.rate(), amo_rate);
            Payments {
                treasury_shares: SharesAmount(p1.treasury_shares.0 + p2.treasury_shares.0),
                amo_shares: SharesAmount(p1.amo_shares.0 + p2.amo_shares.0),
                reserve_shares: SharesAmount(p1.reserve_shares.0 + p2.reserve_shares.0),
            }
        },
        (None, None) => Payments {
            treasury_shares: SharesAmount(0),
            amo_shares: SharesAmount(0),
            reserve_shares: SharesAmount(0),
        },
    };
    // Step 4: the surplus shares leave the pools
    let mut vault = vault;
    match collateral_pool_surplus {
        Some(s) => {
            vault.collateral_pool.shares = SharesAmount(vault.collateral_pool.shares.0 - s.0);
        },
        None => {},
    }
    match reserve_pool_surplus {
        Some(s) => {
            vault.reserve_pool.shares = SharesAmount(vault.reserve_pool.shares.0 - s.0);
        },
        None => {},
    }
    // Step 5: the payments go to their balances, giving the total debt payment
    let (vault, total_debt_payment) = apply_payments(vault, total_payments, redemption_rate);
    // Step 6: the sum payment ratio rises by total debt payment / collateral pool quota
    let vault = increase_vault_spr(vault, total_debt_payment);
    Ok(Some(vault))
}

/// The update of a vault never creates or destroys shares: surpluses only move between the pools, the treasury
/// and the AMO.
pub proof fn law_update_vault_conserves_shares(
    v: VaultView,
    rate: RedemptionRate,
    amo_allocation: nat,
    collateral_fee: nat,
    reserve_fee: nat,
)
    requires
        rate.wf(),
        v.collateral_shares <= u128::MAX,
        v.reserve_shares <= u128::MAX,
        amo_allocation <= w128(),
        collateral_fee <= w128(),
        reserve_fee <= w128(),
        spec_update_vault(v, Some(rate), amo_allocation, collateral_fee, reserve_fee) is Some,
    ensures
        spec_update_vault(v, Some(rate), amo_allocation, collateral_fee, reserve_fee) matches Some(Ok(Some(nv))) ==> nv.collateral_shares
            + nv.reserve_shares + nv.treasury_shares + nv.amo_shares == v.collateral_shares + v.reserve_shares
            + v.treasury_shares + v.amo_shares,
{
    let cs = spec_pool_surplus(v.collateral_shares, v.collateral_quota, rate);
    let rs = spec_pool_surplus(v.reserve_shares, v.reserve_quota, rate);
    if let (Some(Ok(Some(c))), _) = (cs, rs) {
        lemma_surplus_le_shares(v.collateral_shares, v.collateral_quota, rate);
        lemma_payments_sum(c, collateral_fee, amo_allocation);
    }
    if let (Some(Ok(Some(c))), _) = (cs, rs) {
        lemma_payments_sum(c, collateral_fee, amo_allocation);
    }
    if let (_, Some(Ok(Some(r)))) = (cs, rs) {
        lemma_surplus_le_shares(v.reserve_shares, v.reserve_quota, rate);
        lemma_payments_sum(r, reserve_fee, amo_allocation);
        lemma_payments_sum(r, w128(), amo_allocation);
    }
}

/// An update of a vault keeps the collateral pool's quota, never lowers the reserve pool's quota, and never lowers
/// the sum payment ratio: yield only pays debt down.
pub proof fn law_update_vault_keeps_quota_raises_spr(
    v: VaultView,
    rate: RedemptionRate,
    amo_allocation: nat,
    collateral_fee: nat,
    reserve_fee: nat,
)
    requires
        spec_update_vault(v, Some(rate), amo_allocation, collateral_fee, reserve_fee) is Some,
    ensures
        spec_update_vault(v, Some(rate), amo_allocation, collateral_fee, reserve_fee) matches Some(Ok(Some(nv))) ==> {
            &&& nv.collateral_quota == v.collateral_quota
            &&& nv.reserve_quota >= v.reserve_quota
            &&& nv.spr >= v.spr
        },
{
}

/// The yield an update pays to the reserves and to the AMO pays debt down: the sum payment ratio rises by the
/// rise of the reserve quota plus the deposit value of the AMO's new shares, per unit of collateral quota. Only the
/// treasury's fee goes unpaid to debt.
pub proof fn law_update_vault_debt_payment(
    v: VaultView,
    rate: RedemptionRate,
    amo_allocation: nat,
    collateral_fee: nat,
    reserve_fee: nat,
)
    requires
        spec_update_vault(v, Some(rate), amo_allocation, collateral_fee, reserve_fee) is Some,
    ensures
        spec_update_vault(v, Some(rate), amo_allocation, collateral_fee, reserve_fee) matches Some(Ok(Some(nv))) ==> {
            let payment = ((nv.reserve_quota - v.reserve_quota) + value_of(rate, (nv.amo_shares - v.amo_shares) as nat)) as nat;
            &&& nv.reserve_quota >= v.reserve_quota
            &&& nv.amo_shares >= v.amo_shares
            &&& v.collateral_quota > 0 ==> nv.spr == v.spr + payment * w128() / (v.collateral_quota as nat)
            &&& v.collateral_quota == 0 ==> nv.spr == v.spr
        },
{
}

/// A CDP after a repayment of `amount`: debt is paid down first, any excess becomes credit. `None` where the
/// credit overflows.
pub open spec fn spec_repay(c: CdpView, amount: nat) -> Option<CdpView> {
    if c.debt == 0 {
        if c.credit + amount > u128::MAX {
            None
        } else {
            Some(CdpView { credit: c.credit + amount, ..c })
        }
    } else if amount <= c.debt {
        Some(CdpView { debt: (c.debt - amount) as nat, ..c })
    } else if c.credit + (amount - c.debt) > u128::MAX {
        None
    } else {
        Some(CdpView { credit: (c.credit + (amount - c.debt)) as nat, debt: 0, ..c })
    }
}

/// Repay `amount` of a CDP's debt; whatever exceeds the debt becomes credit.
pub fn repay(cdp: Cdp, amount: Debt) -> (r: Cdp)
    requires
        spec_repay(cdp@, amount as nat) is Some,
    ensures
        spec_repay(cdp@, amount as nat) == Some(r@),
{
    if cdp.debt == 0 {
        let credit = cdp.credit + amount;
        return Cdp { credit, ..cdp };
    }
    if amount <= cdp.debt {
        let debt = cdp.debt - amount;
        return Cdp { debt, ..cdp };
    }
    let credit_increase = amount - cdp.debt;
    let credit = cdp.credit + credit_increase;
    Cdp { credit, debt: 0, ..cdp }
}

/// A repayment lowers debt minus credit by exactly the amount repaid.
pub proof fn law_repay_lowers_net_debt(c: CdpView, amount: nat)
    requires
        spec_repay(c, amount) is Some,
    ensures
        spec_repay(c, amount).unwrap().debt - spec_repay(c, amount).unwrap().credit == c.debt - c.credit - amount,
        spec_repay(c, amount).unwrap().collateral == c.collateral,
{
}

/// A CDP brought up to date with its vault's sum payment ratio: the yield earned by its collateral since its last
/// update repays its debt. `None` on an overflow.
pub open spec fn spec_update_cdp(vault_spr: nat, c: CdpView) -> Option<CdpView> {
    if vault_spr == c.spr {
        Some(c)
    } else if vault_spr < c.spr {
        None
    } else {
        match fixed_mul((vault_spr - c.spr) as nat, c.collateral * w128()) {
            None => None,
            Some(payment) => match spec_repay(c, payment / w128()) {
                None => None,
                Some(repaid) => Some(CdpView { spr: vault_spr, ..repaid }),
            },
        }
    }
}

/// Apply the vault's accumulated debt payments to a CDP.
pub fn update_cdp(vault: &Vault, cdp: Cdp) -> (r: Cdp)
    requires
        spec_update_cdp(vault@.spr, cdp@) is Some,
    ensures
        spec_update_cdp(vault@.spr, cdp@) == Some(r@),
{
    let vault_spr = vault.spr.fixed_u256();
    let cdp_spr = cdp.spr.fixed_u256();
    // check if CDP is already up-to-date
    if vault_spr.equals(cdp_spr) {
        return cdp;
    }
    let diff = vault_spr.checked_sub(cdp_spr).unwrap();
    let product = diff.checked_mul(FixedU256::from_u128(cdp.collateral)).unwrap();
    proof {
        crate::num::lemma_fixed_floor_bound(product);
    }
    let debt_payment = product.floor();
    let cdp = repay(cdp, debt_payment);
    Cdp { spr: vault.spr, ..cdp }
}

/// The result of an advance.
pub struct Advance {
    /// The updated CDP
    pub cdp: Cdp,
    /// The amount to mint to the CDP owner
    pub amount: Debt,
    /// The amount to mint to the fee recipient
    pub fee: Option<FeeAmount>,
}

/// An advance as plain numbers: (the CDP after it, the amount minted to the owner, the fee minted).
pub type AdvanceView = (CdpView, nat, Option<nat>);

/// The outcome of advancing `amount` against a CDP with the given max LTV and advance fee (raw rates).
pub open spec fn spec_advance(c: CdpView, amount: nat, max_ltv: nat, fee_rate: Option<nat>) -> Option<AdvanceView> {
    if amount <= c.credit {
        Some((CdpView { credit: (c.credit - amount) as nat, ..c }, amount, None))
    } else {
        let debt_increase = (amount - c.credit) as nat;
        let debt = c.debt + debt_increase;
        let max_debt = max_ltv * c.collateral / w128();
        if debt > u128::MAX || c.collateral < debt || debt > max_debt {
            None
        } else {
            match fee_rate {
                None => Some((CdpView { credit: 0, debt, ..c }, amount, None)),
                Some(fee_rate) => {
                    let fee = fee_rate * debt_increase / w128();
                    let buffer = (max_debt - debt) as nat;
                    if fee <= buffer {
                        Some((CdpView { credit: 0, debt: debt + fee, ..c }, amount, Some(fee)))
                    } else {
                        Some((CdpView { credit: 0, debt: max_debt, ..c }, (amount - (fee - buffer)) as nat, Some(fee)))
                    }
                },
            }
        }
    }
}

/// Advance `amount` of synthetics against a CDP: credit is used first, then debt is taken on up to the max LTV,
/// with a fee on the debt increase if a fee applies. `None` if the advance would exceed the max LTV.
pub fn advance(cdp: Cdp, amount: Debt, max_ltv: MaxLtv, advance_fee: Option<AdvanceFee>) -> (r: Option<Advance>)
    requires
        max_ltv.wf(),
        advance_fee matches Some(f) ==> f.wf(),
    ensures
        spec_advance(
            cdp@,
            amount as nat,
            max_ltv.spec_raw_rate(),
            match advance_fee {
                Some(f) => Some(f.spec_raw_rate()),
                None => None,
            },
        ) == match r {
            Some(a) => Some((a.cdp@, a.amount as nat, match a.fee {
                Some(f) => Some(f as nat),
                None => None,
            })),
            None => None,
        },
{
    // check if amount falls wholely within available credit
    if amount <= cdp.credit {
        let credit = cdp.credit - amount;
        return Some(Advance { cdp: Cdp { credit, ..cdp }, amount, fee: None });
    }
    // the difference between credit balance and requested amount
    let debt_increase = amount - cdp.credit;
    let debt = match cdp.debt.checked_add(debt_increase) {
        Some(d) => d,
        None => {
            return None;
        },
    };
    // reject anything over 100% LTV
    if cdp.collateral < debt {
        return None;
    }
    // the max debt balance allowed by the collateral and the max LTV
    let max_rate = max_ltv.rate();
    proof {
        lemma_apply_at_most_one(max_rate.raw(), cdp.collateral as nat);
    }
    let max_debt = max_rate.apply_u128(cdp.collateral).unwrap();
    // reject anything over Max LTV
    if debt > max_debt {
        return None;
    }
    let advance_fee = match advance_fee {
        Some(f) => f,
        None => {
            return Some(Advance { cdp: Cdp { credit: 0, debt, ..cdp }, amount, fee: None });
        },
    };
    // the fee applies to the *debt increase* (credit use is not charged)
    let fee_rate = advance_fee.rate();
    proof {
        lemma_apply_at_most_one(fee_rate.raw(), debt_increase as nat);
    }
    let fee = fee_rate.apply_u128(debt_increase).unwrap();
    // the buffer between the new debt level and the maximum debt level
    let buffer = max_debt - debt;
    // check if the fee can be added on as additional debt
    if fee <= buffer {
        let debt = debt + fee;
        return Some(Advance { cdp: Cdp { credit: 0, debt, ..cdp }, amount, fee: Some(fee) });
    }
    // max out the debt: the part of the fee beyond the buffer comes out of the amount minted to the CDP owner
    let fee_remainder = fee - buffer;
    let amount = amount - fee_remainder;
    Some(Advance { cdp: Cdp { credit: 0, debt: max_debt, ..cdp }, amount, fee: Some(fee) })
}

/// An advance never takes a CDP's debt over the max LTV, and whatever is minted (to the owner and as fee) is
/// exactly the rise of debt minus credit.
pub proof fn law_advance_respects_max_ltv(c: CdpView, amount: nat, max_ltv: nat, fee_rate: Option<nat>)
    requires
        max_ltv <= w128(),
        fee_rate matches Some(f) ==> f <= w128(),
        c.collateral <= u128::MAX,
        amount <= u128::MAX,
        spec_advance(c, amount, max_ltv, fee_rate) is Some,
    ensures
        ({
            let (nc, minted, fee) = spec_advance(c, amount, max_ltv, fee_rate).unwrap();
            &&& amount > c.credit ==> nc.debt <= max_ltv * c.collateral / w128()
            &&& nc.collateral == c.collateral
            &&& nc.debt - nc.credit == c.debt - c.credit + minted + match fee {
                Some(f) => f,
                None => 0,
            }
        }),
{
    if amount > c.credit {
        if let Some(f) = fee_rate {
            lemma_apply_at_most_one(f, (amount - c.credit) as nat);
        }
    }
}

/// A CDP after withdrawing `amount` of collateral, `None` if it does not hold that much or the max LTV would be exceeded.
pub open spec fn spec_withdraw_cdp_collateral(c: CdpView, max_ltv: nat, amount: nat) -> Option<CdpView> {
    if amount > c.collateral {
        None
    } else {
        let collateral = (c.collateral - amount) as nat;
        if c.debt == 0 {
            Some(CdpView { collateral, ..c })
        } else if collateral < c.debt {
            None
        } else if c.debt * w128() / collateral > max_ltv {
            None
        } else {
            Some(CdpView { collateral, ..c })
        }
    }
}

fn withdraw_cdp_collateral(cdp: Cdp, max_ltv: MaxLtv, amount: Collateral) -> (r: Option<Cdp>)
    requires
        max_ltv.wf(),
    ensures
        spec_withdraw_cdp_collateral(cdp@, max_ltv.spec_raw_rate(), amount as nat) == match r {
            Some(c) => Some(c@),
            None => None,
        },
{
    // reject if amount greater than deposited collateral
    if amount > cdp.collateral {
        return None;
    }
    let collateral = cdp.collateral - amount;
    // if there is no debt then always allow
    if cdp.debt == 0 {
        return Some(Cdp { collateral, ..cdp });
    }
    // reject if 100% LTV exceeded
    if collateral < cdp.debt {
        return None;
    }
    let proposed_ltv = Rate::from_ratio(cdp.debt, collateral).unwrap();
    // reject if max LTV exceeded
    if proposed_ltv.gt(max_ltv.rate()) {
        return None;
    }
    Some(Cdp { collateral, ..cdp })
}

/// A pool after `amount` of its quota (and the shares worth it) is withdrawn: (shares, quota, withdrawn shares).
pub open spec fn spec_withdraw_pool(shares: nat, quota: nat, rate: RedemptionRate, amount: nat) -> Option<(nat, nat, nat)> {
    let s = shares_of(rate, amount);
    if s > u128::MAX || s > shares || amount > quota {
        None
    } else {
        Some(((shares - s) as nat, (quota - amount) as nat, s))
    }
}

fn withdraw_pool(pool: SharesPool, redemption_rate: RedemptionRate, amount: Collateral) -> (r: Option<(SharesPool, SharesAmount)>)
    requires
        redemption_rate.wf(),
    ensures
        spec_withdraw_pool(pool.shares.0 as nat, pool.quota as nat, redemption_rate, amount as nat) == match r {
            Some((p, s)) => Some((p.shares.0 as nat, p.quota as nat, s.0 as nat)),
            None => None,
        },
{
    let shares = match checked_shares_of(redemption_rate, amount) {
        Some(s) => SharesAmount(s),
        None => {
            return None;
        },
    };
    let pool_shares = match pool.shares.0.checked_sub(shares.0) {
        Some(s) => s,
        None => {
            return None;
        },
    };
    let quota = match pool.quota.checked_sub(amount) {
        Some(q) => q,
        None => {
            return None;
        },
    };
    Some((SharesPool { shares: SharesAmount(pool_shares), quota }, shares))
}

fn withdraw_vault_collateral(vault: Vault, redemption_rate: RedemptionRate, amount: Collateral) -> (r: Option<(Vault, SharesAmount)>)
    requires
        redemption_rate.wf(),
    ensures
        match spec_withdraw_pool(vault@.collateral_shares, vault@.collateral_quota, redemption_rate, amount as nat) {
            None => r is None,
            Some((shares, quota, s)) => r matches Some((v, w)) && v@ == (VaultView {
                collateral_shares: shares,
                collateral_quota: quota,
                ..vault@
            }) && w.0 == s,
        },
{
    match withdraw_pool(vault.collateral_pool, redemption_rate, amount) {
        Some((pool, shares)) => Some((Vault { collateral_pool: pool, ..vault }, shares)),
        None => None,
    }
}

fn withdraw_vault_reserves(vault: Vault, redemption_rate: RedemptionRate, amount: Collateral) -> (r: Option<(Vault, SharesAmount)>)
    requires
        redemption_rate.wf(),
    ensures
        match spec_withdraw_pool(vault@.reserve_shares, vault@.reserve_quota, redemption_rate, amount as nat) {
            None => r is None,
            Some((shares, quota, s)) => r matches Some((v, w)) && v@ == (VaultView {
                reserve_shares: shares,
                reserve_quota: quota,
                ..vault@
            }) && w.0 == s,
        },
{
    match withdraw_pool(vault.reserve_pool, redemption_rate, amount) {
        Some((pool, shares)) => Some((Vault { reserve_pool: pool, ..vault }, shares)),
        None => None,
    }
}

/// Add `amount` of quota and `shares` to the reserve pool.
pub fn add_vault_reserves(vault: Vault, amount: Collateral, shares: SharesAmount) -> (r: Vault)
    requires
        vault@.reserve_shares + shares.0 <= u128::MAX,
        vault@.reserve_quota + amount <= u128::MAX,
    ensures
        r@ == (VaultView {
            reserve_shares: vault@.reserve_shares + shares.0 as nat,
            reserve_quota: vault@.reserve_quota + amount as nat,
            ..vault@
        }),
{
    let mut vault = vault;
    vault.reserve_pool.shares = SharesAmount(vault.reserve_pool.shares.0 + shares.0);
    vault.reserve_pool.quota = vault.reserve_pool.quota + amount;
    vault
}

/// Add `amount` of quota and `shares` to the collateral pool.
pub fn add_vault_collateral(vault: Vault, amount: Collateral, shares: SharesAmount) -> (r: Vault)
    requires
        vault@.collateral_shares + shares.0 <= u128::MAX,
        vault@.collateral_quota + amount <= u128::MAX,
    ensures
        r@ == (VaultView {
            collateral_shares: vault@.collateral_shares + shares.0 as nat,
            collateral_quota: vault@.collateral_quota + amount as nat,
            ..vault@
        }),
{
    let mut vault = vault;
    vault.collateral_pool.shares = SharesAmount(vault.collateral_pool.shares.0 + shares.0);
    vault.collateral_pool.quota = vault.collateral_pool.quota + amount;
    vault
}

#[derive(Debug, Clone, Copy, PartialEq, Eq, Structural)]
pub enum WithdrawCollateralError {
    VaultLoss(LossError),
    NotEnoughCollateral,
}

/// Withdraw `amount` of collateral from a CDP and the vault's collateral pool, returning the shares to send.
pub fn withdraw_collateral(vault: Vault, cdp: Cdp, amount: Collateral, max_ltv: MaxLtv, redemption_rate: Option<RedemptionRate>) -> (r: Result<
    (Vault, Cdp, SharesAmount),
    WithdrawCollateralError,
>)
    requires
        max_ltv.wf(),
        redemption_rate matches Some(rate) ==> rate.wf(),
    ensures
        match spec_withdraw_cdp_collateral(cdp@, max_ltv.spec_raw_rate(), amount as nat) {
            None => r == Err::<(Vault, Cdp, SharesAmount), WithdrawCollateralError>(WithdrawCollateralError::NotEnoughCollateral),
            Some(nc) => match redemption_rate {
                None => r == Err::<(Vault, Cdp, SharesAmount), WithdrawCollateralError>(
                    WithdrawCollateralError::VaultLoss(LossError),
                ),
                Some(rate) => match spec_withdraw_pool(vault@.collateral_shares, vault@.collateral_quota, rate, amount as nat) {
                    None => r == Err::<(Vault, Cdp, SharesAmount), WithdrawCollateralError>(
                        WithdrawCollateralError::VaultLoss(LossError),
                    ),
                    Some((shares, quota, s)) => r matches Ok((v, c, w)) && v@ == (VaultView {
                        collateral_shares: shares,
                        collateral_quota: quota,
                        ..vault@
                    }) && c@ == nc && w.0 == s,
                },
            },
        },
{
    let cdp = match withdraw_cdp_collateral(cdp, max_ltv, amount) {
        Some(c) => c,
        None => {
            return Err(WithdrawCollateralError::NotEnoughCollateral);
        },
    };
    let redemption_rate = match redemption_rate {
        Some(rate) => rate,
        None => {
            return Err(WithdrawCollateralError::VaultLoss(LossError));
        },
    };
    let (vault, shares) = match withdraw_vault_collateral(vault, redemption_rate, amount) {
        Some(x) => x,
        None => {
            return Err(WithdrawCollateralError::VaultLoss(LossError));
        },
    };
    Ok((vault, cdp, shares))
}

#[derive(Debug, Clone, Copy, PartialEq, Eq, Structural)]
pub enum SelfLiquidateError {
    VaultLoss(LossError),
    NothingToLiquidate,
    InsufficientReserves,
}

/// The result of a self-liquidation.
pub struct SelfLiquidation {
    pub vault: Vault,
    pub cdp: Cdp,
    pub mint_credit: Option<Credit>,
    pub redeem_shares: Option<SharesAmount>,
}

/// A self-liquidation as plain numbers: (vault, credit to mint, shares to redeem); the CDP is always zeroed.
pub type SelfLiquidationView = (VaultView, Option<nat>, Option<nat>);

/// The outcome of a self-liquidation; the outer `None` marks the inputs on which the arithmetic overflows.
pub open spec fn spec_self_liquidate(v: VaultView, c: CdpView, rate: Option<RedemptionRate>) -> Option<
    Result<SelfLiquidationView, SelfLiquidateError>,
> {
    if c.collateral == 0 && c.credit == 0 {
        Some(Err(SelfLiquidateError::NothingToLiquidate))
    } else {
        match rate {
            None => Some(Err(SelfLiquidateError::VaultLoss(LossError))),
            Some(rate) => if c.credit > 0 {
                if c.debt != 0 {
                    None
                } else if c.collateral == 0 {
                    Some(Ok((v, Some(c.credit), None)))
                } else {
                    match spec_withdraw_pool(v.collateral_shares, v.collateral_quota, rate, c.collateral) {
                        None => Some(Err(SelfLiquidateError::VaultLoss(LossError))),
                        Some((shares, quota, s)) => Some(
                            Ok((VaultView { collateral_shares: shares, collateral_quota: quota, ..v }, Some(c.credit), Some(s))),
                        ),
                    }
                }
            } else if c.debt == 0 {
                match spec_withdraw_pool(v.collateral_shares, v.collateral_quota, rate, c.collateral) {
                    None => Some(Err(SelfLiquidateError::VaultLoss(LossError))),
                    Some((shares, quota, s)) => Some(
                        Ok((VaultView { collateral_shares: shares, collateral_quota: quota, ..v }, None, Some(s))),
                    ),
                }
            } else {
                let withdraw_amount = if c.collateral >= c.debt {
                    (c.collateral - c.debt) as nat
                } else {
                    (c.debt - c.collateral) as nat
                };
                match spec_withdraw_pool(v.collateral_shares, v.collateral_quota, rate, c.debt) {
                    None => Some(Err(SelfLiquidateError::VaultLoss(LossError))),
                    Some((shares, quota, s)) => if v.reserve_shares + s > u128::MAX || v.reserve_quota + c.debt
                        > u128::MAX {
                        None
                    } else {
                        let moved = VaultView {
                            collateral_shares: shares,
                            collateral_quota: quota,
                            reserve_shares: v.reserve_shares + s,
                            reserve_quota: v.reserve_quota + c.debt,
                            ..v
                        };
                        match spec_withdraw_pool(moved.collateral_shares, moved.collateral_quota, rate, withdraw_amount) {
                            None => Some(Err(SelfLiquidateError::VaultLoss(LossError))),
                            Some((shares2, quota2, s2)) => Some(
                                Ok((VaultView { collateral_shares: shares2, collateral_quota: quota2, ..moved }, None, Some(s2))),
                            ),
                        }
                    },
                }
            },
        }
    }
}

/// Self-liquidation never loses the owner's credit: whatever credit the CDP holds is minted to the owner, and
/// none is minted without credit; the collateral left after any debt is redeemed exactly when there is collateral.
pub proof fn law_self_liquidate_mints_credit(v: VaultView, c: CdpView, rate: Option<RedemptionRate>)
    ensures
        spec_self_liquidate(v, c, rate) matches Some(Ok((nv, mint, redeem))) ==> {
            &&& mint == (if c.credit > 0 { Some(c.credit) } else { None::<nat> })
            &&& (redeem is Some <==> c.collateral > 0)
        },
{
}

/// Close a CDP: its debt is settled from its collateral (moving to the reserves), and what remains is redeemed
/// (or, with credit, minted).
pub fn self_liquidate(vault: Vault, cdp: Cdp, redemption_rate: Option<RedemptionRate>) -> (r: Result<SelfLiquidation, SelfLiquidateError>)
    requires
        redemption_rate matches Some(rate) ==> rate.wf(),
        spec_self_liquidate(vault@, cdp@, redemption_rate) is Some,
    ensures
        spec_self_liquidate(vault@, cdp@, redemption_rate) == Some(
            match r {
                Ok(l) => Ok::<SelfLiquidationView, SelfLiquidateError>(
                    (l.vault@, match l.mint_credit {
                        Some(c) => Some(c as nat),
                        None => None,
                    }, match l.redeem_shares {
                        Some(s) => Some(s.0 as nat),
                        None => None,
                    }),
                ),
                Err(e) => Err::<SelfLiquidationView, SelfLiquidateError>(e),
            },
        ),
        r matches Ok(l) ==> l.cdp@ == (CdpView { collateral: 0, debt: 0, credit: 0, spr: 0 }),
{
    if cdp.collateral == 0 && cdp.credit == 0 {
        return Err(SelfLiquidateError::NothingToLiquidate);
    }
    let zeroed_cdp = Cdp { collateral: 0, debt: 0, credit: 0, spr: SumPaymentRatio::zero() };
    let redemption_rate = match redemption_rate {
        Some(rate) => rate,
        None => {
            return Err(SelfLiquidateError::VaultLoss(LossError));
        },
    };
    // if there is credit, there is no debt to cancel out
    if cdp.credit > 0 {
        // if there is no collateral, just mint the credit
        if cdp.collateral == 0 {
            return Ok(SelfLiquidation { vault, cdp: zeroed_cdp, mint_credit: Some(cdp.credit), redeem_shares: None });
        }
        let (vault, shares) = match withdraw_vault_collateral(vault, redemption_rate, cdp.collateral) {
            Some(x) => x,
            None => {
                return Err(SelfLiquidateError::VaultLoss(LossError));
            },
        };
        return Ok(SelfLiquidation { vault, cdp: zeroed_cdp, mint_credit: Some(cdp.credit), redeem_shares: Some(shares) });
    }
    // if there is no debt, just withdraw all the collateral
    if cdp.debt == 0 {
        let (vault, shares) = match withdraw_vault_collateral(vault, redemption_rate, cdp.collateral) {
            Some(x) => x,
            None => {
                return Err(SelfLiquidateError::VaultLoss(LossError));
            },
        };
        return Ok(SelfLiquidation { vault, cdp: zeroed_cdp, mint_credit: None, redeem_shares: Some(shares) });
    }
    // the amount to withdraw is the difference between collateral and debt
    let withdraw_amount = if cdp.collateral >= cdp.debt {
        cdp.collateral - cdp.debt
    } else {
        cdp.debt - cdp.collateral
    };
    // an amount of collateral equal to the debt leaves the collateral pool for the reserve pool
    let (vault, shares) = match withdraw_vault_collateral(vault, redemption_rate, cdp.debt) {
        Some(x) => x,
        None => {
            return Err(SelfLiquidateError::VaultLoss(LossError));
        },
    };
    let vault = add_vault_reserves(vault, cdp.debt, shares);
    // the remainder is withdrawn from the collateral pool
    let (vault, shares) = match withdraw_vault_collateral(vault, redemption_rate, withdraw_amount) {
        Some(x) => x,
        None => {
            return Err(SelfLiquidateError::VaultLoss(LossError));
        },
    };
    Ok(SelfLiquidation { vault, cdp: zeroed_cdp, mint_credit: None, redeem_shares: Some(shares) })
}

#[derive(Debug, Clone, Copy, PartialEq, Eq, Structural)]
pub enum ConvertCreditError {
    VaultLoss(LossError),
    NotEnoughCredit,
    InsufficientReserves,
}

/// The outcome of converting `amount` of a CDP's credit into collateral; the outer `None` marks the inputs on
/// which the arithmetic overflows.
pub open spec fn spec_convert_credit(v: VaultView, c: CdpView, amount: nat, rate: Option<RedemptionRate>) -> Option<
    Result<(VaultView, CdpView), ConvertCreditError>,
> {
    if c.credit < amount {
        Some(Err(ConvertCreditError::NotEnoughCredit))
    } else {
        match rate {
            None => Some(Err(ConvertCreditError::VaultLoss(LossError))),
            Some(rate) => match spec_withdraw_pool(v.reserve_shares, v.reserve_quota, rate, amount) {
                None => Some(Err(ConvertCreditError::InsufficientReserves)),
                Some((rshares, rquota, s)) => {
                    let value = value_of(rate, s);
                    if v.collateral_shares + s > u128::MAX || v.collateral_quota + value > u128::MAX || c.collateral
                        + value > u128::MAX {
                        None
                    } else {
                        Some(
                            Ok(
                                (
                                    VaultView {
                                        reserve_shares: rshares,
                                        reserve_quota: rquota,
                                        collateral_shares: v.collateral_shares + s,
                                        collateral_quota: v.collateral_quota + value,
                                        ..v
                                    },
                                    CdpView { credit: (c.credit - amount) as nat, collateral: c.collateral + value, ..c },
                                ),
                            ),
                        )
                    }
                },
            },
        }
    }
}

/// Convert `amount` of credit into collateral: shares worth it move from the reserve pool to the collateral pool.
pub fn convert_credit(vault: Vault, cdp: Cdp, amount: Credit, redemption_rate: Option<RedemptionRate>) -> (r: Result<
    (Vault, Cdp),
    ConvertCreditError,
>)
    requires
        redemption_rate matches Some(rate) ==> rate.wf(),
        spec_convert_credit(vault@, cdp@, amount as nat, redemption_rate) is Some,
    ensures
        spec_convert_credit(vault@, cdp@, amount as nat, redemption_rate) == Some(
            match r {
                Ok((v, c)) => Ok::<(VaultView, CdpView), ConvertCreditError>((v@, c@)),
                Err(e) => Err::<(VaultView, CdpView), ConvertCreditError>(e),
            },
        ),
{
    if cdp.credit < amount {
        return Err(ConvertCreditError::NotEnoughCredit);
    }
    let redemption_rate = match redemption_rate {
        Some(rate) => rate,
        None => {
            return Err(ConvertCreditError::VaultLoss(LossError));
        },
    };
    let (vault, shares) = match withdraw_vault_reserves(vault, redemption_rate, amount) {
        Some(x) => x,
        None => {
            return Err(ConvertCreditError::InsufficientReserves);
        },
    };
    proof {
        redemption_rate.lemma_wf();
        lemma_round_trip_value(redemption_rate, amount as nat);
    }
    let shares_value = value_of_shares(redemption_rate, shares.0);
    let vault = add_vault_collateral(vault, shares_value, shares);
    let mut cdp = cdp;
    cdp.credit = cdp.credit - amount;
    cdp.collateral = cdp.collateral + shares_value;
    Ok((vault, cdp))
}

#[derive(Debug, Clone, Copy, PartialEq, Eq, Structural)]
pub enum RedeemReservesError {
    VaultLoss(LossError),
    InsufficientReserves,
}

/// Redeem `amount` of the reserves, returning the shares worth it.
pub fn redeem_reserves(vault: Vault, amount: Collateral, redemption_rate: Option<RedemptionRate>) -> (r: Result<
    (Vault, SharesAmount),
    RedeemReservesError,
>)
    requires
        redemption_rate matches Some(rate) ==> rate.wf(),
    ensures
        vault@.reserve_quota < amount ==> r == Err::<(Vault, SharesAmount), RedeemReservesError>(
            RedeemReservesError::InsufficientReserves,
        ),
        vault@.reserve_quota >= amount ==> match redemption_rate {
            None => r == Err::<(Vault, SharesAmount), RedeemReservesError>(RedeemReservesError::VaultLoss(LossError)),
            Some(rate) => match spec_withdraw_pool(vault@.reserve_shares, vault@.reserve_quota, rate, amount as nat) {
                None => r == Err::<(Vault, SharesAmount), RedeemReservesError>(RedeemReservesError::VaultLoss(LossError)),
                Some((shares, quota, s)) => r matches Ok((v, w)) && v@ == (VaultView {
                    reserve_shares: shares,
                    reserve_quota: quota,
                    ..vault@
                }) && w.0 == s,
            },
        },
{
    if vault.reserve_pool.quota < amount {
        return Err(RedeemReservesError::InsufficientReserves);
    }
    let redemption_rate = match redemption_rate {
        Some(rate) => rate,
        None => {
            return Err(RedeemReservesError::VaultLoss(LossError));
        },
    };
    match withdraw_vault_reserves(vault, redemption_rate, amount) {
        Some((vault, shares)) => Ok((vault, shares)),
        None => Err(RedeemReservesError::VaultLoss(LossError)),
    }
}

/// Deposit `amount` of collateral (as `shares`) into a CDP and the vault's collateral pool.
pub fn deposit_collateral(vault: Vault, cdp: Cdp, amount: Collateral, shares: SharesAmount) -> (r: (Vault, Cdp))
    requires
        cdp@.collateral + amount <= u128::MAX,
        vault@.collateral_shares + shares.0 <= u128::MAX,
        vault@.collateral_quota + amount <= u128::MAX,
    ensures
        r.0@ == (VaultView {
            collateral_shares: vault@.collateral_shares + shares.0 as nat,
            collateral_quota: vault@.collateral_quota + amount as nat,
            ..vault@
        }),
        r.1@ == (CdpView { collateral: cdp@.collateral + amount as nat, ..cdp@ }),
{
    let mut cdp = cdp;
    cdp.collateral = cdp.collateral + amount;
    let vault = add_vault_collateral(vault, amount, shares);
    (vault, cdp)
}

/// There is nothing to claim.
#[derive(Debug, Clone, Copy, PartialEq, Eq, Structural)]
pub struct NothingToClaimError;

/// Take all unclaimed treasury shares.
pub fn claim_treasury_shares(vault: Vault) -> (r: Result<(Vault, SharesAmount), NothingToClaimError>)
    ensures
        vault@.treasury_shares == 0 ==> r == Err::<(Vault, SharesAmount), NothingToClaimError>(NothingToClaimError),
        vault@.treasury_shares != 0 ==> (r matches Ok((v, s)) && s == vault.treasury_shares && v@ == (VaultView {
            treasury_shares: 0,
            ..vault@
        })),
{
    let shares = vault.treasury_shares;
    if shares.0 == 0 {
        return Err(NothingToClaimError);
    }
    Ok((Vault { treasury_shares: SharesAmount(0), ..vault }, shares))
}

/// Take all unclaimed AMO shares.
pub fn claim_amo_shares(vault: Vault) -> (r: Result<(Vault, SharesAmount), NothingToClaimError>)
    ensures
        vault@.amo_shares == 0 ==> r == Err::<(Vault, SharesAmount), NothingToClaimError>(NothingToClaimError),
        vault@.amo_shares != 0 ==> (r matches Ok((v, s)) && s == vault.amo_shares && v@ == (VaultView {
            amo_shares: 0,
            ..vault@
        })),
{
    let shares = vault.amo_shares;
    if shares.0 == 0 {
        return Err(NothingToClaimError);
    }
    Ok((Vault { amo_shares: SharesAmount(0), ..vault }, shares))
}

} // verus!
