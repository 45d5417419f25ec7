//! The hub's position operations: each evaluates the vault and the account's CDP (bringing them up to date with the
//! vault's yield) and issues the commands that record the outcome.
use vstd::prelude::*;

use super::positions::{
    add_vault_reserves, advance, claim_amo_shares, claim_treasury_shares, convert_credit, deposit_collateral,
    redeem_reserves, repay, self_liquidate, spec_advance, spec_convert_credit, spec_repay, spec_self_liquidate,
    spec_update_cdp, spec_update_vault, spec_withdraw_cdp_collateral, spec_withdraw_pool, update_cdp, update_vault,
    withdraw_collateral, Cdp, CdpView, ConvertCreditError, Debt, LossError, RedeemReservesError, SelfLiquidateError,
    SharesPool, SumPaymentRatio, Vault as VaultPosition, VaultView, WithdrawCollateralError, Collateral, Credit,
    SelfLiquidationView,
};
use super::rates::{bps_raw, AdvanceFee, AmoAllocation, CollateralYieldFee, MaxLtv, ReserveYieldFee};
use super::{
    cmds_view, AdvanceFeeOracle, BalanceSheet, BalanceSheetCmd, Cmd, CmdView, Error, PositionResponse, VaultCmd,
    VaultDepositReason, VaultId, VaultSettings, VaultSheet, AccountSheet, Vaults, Account,
};
use crate::mint::{MintCmd, Synthetic, SyntheticAmount};
use crate::vault::{rate_of, lemma_rate_of, DepositAmount, DepositValue, RedemptionRate, SharesAmount};
use crate::{Asset, Identifier, Recipient, Sender, UnauthorizedError};

verus! {

/// The hub over the vaults registry, the balance sheet and the advance fee oracle.
pub struct HubImpl<'a, V: Vaults, B: BalanceSheet, O: AdvanceFeeOracle> {
    pub vaults: &'a V,
    pub balance_sheet: &'a B,
    pub advance_fee_oracle: &'a O,
}

/// The hub over the vaults registry, the balance sheet and the advance fee oracle.
pub fn hub<'a, V: Vaults, B: BalanceSheet, O: AdvanceFeeOracle>(
    vaults: &'a V,
    balance_sheet: &'a B,
    advance_fee_oracle: &'a O,
) -> (r: HubImpl<'a, V, B, O>)
    ensures
        r.vaults == vaults,
        r.balance_sheet == balance_sheet,
        r.advance_fee_oracle == advance_fee_oracle,
{
    HubImpl { vaults, balance_sheet, advance_fee_oracle }
}

/// The vault position the balance sheet holds (zero where nothing is held).
pub open spec fn sheet_vault(s: VaultSheet) -> VaultView {
    VaultView {
        collateral_shares: match s.collateral_shares {
            Some(x) => x.0 as nat,
            None => 0,
        },
        collateral_quota: match s.collateral_balance {
            Some(x) => x as nat,
            None => 0,
        },
        reserve_shares: match s.reserve_shares {
            Some(x) => x.0 as nat,
            None => 0,
        },
        reserve_quota: match s.reserve_balance {
            Some(x) => x as nat,
            None => 0,
        },
        treasury_shares: match s.treasury_shares {
            Some(x) => x.0 as nat,
            None => 0,
        },
        amo_shares: match s.amo_shares {
            Some(x) => x.0 as nat,
            None => 0,
        },
        spr: match s.overall_sum_payment_ratio {
            Some(x) => x,
            None => 0,
        },
    }
}

/// The CDP the balance sheet holds (zero where nothing is held).
pub open spec fn sheet_cdp(a: AccountSheet) -> CdpView {
    CdpView {
        collateral: match a.collateral {
            Some(x) => x as nat,
            None => 0,
        },
        debt: match a.debt {
            Some(x) => x as nat,
            None => 0,
        },
        credit: match a.credit {
            Some(x) => x as nat,
            None => 0,
        },
        spr: match a.sum_payment_ratio {
            Some(x) => x,
            None => 0,
        },
    }
}

/// Every rate set for the vault is well formed.
pub open spec fn settings_wf(s: VaultSettings) -> bool {
    &&& s.max_ltv matches Some(r) ==> r.wf()
    &&& s.collateral_yield_fee matches Some(r) ==> r.wf()
    &&& s.reserve_yield_fee matches Some(r) ==> r.wf()
    &&& s.fixed_advance_fee matches Some(r) ==> r.wf()
    &&& s.amo_allocation matches Some(r) ==> r.wf()
}

/// The AMO allocation of a vault (none by default), raw.
pub open spec fn amo_raw(s: VaultSettings) -> nat {
    match s.amo_allocation {
        Some(r) => r.spec_raw_rate(),
        None => bps_raw(0),
    }
}

/// The treasury's fee on collateral yield (10% by default), raw.
pub open spec fn collateral_fee_raw(s: VaultSettings) -> nat {
    match s.collateral_yield_fee {
        Some(r) => r.spec_raw_rate(),
        None => bps_raw(1_000),
    }
}

/// The treasury's fee on reserve yield (100% by default), raw.
pub open spec fn reserve_fee_raw(s: VaultSettings) -> nat {
    match s.reserve_yield_fee {
        Some(r) => r.spec_raw_rate(),
        None => bps_raw(10_000),
    }
}

/// The maximum loan-to-value of a vault (50% by default), raw.
pub open spec fn max_ltv_raw(s: VaultSettings) -> nat {
    match s.max_ltv {
        Some(r) => r.spec_raw_rate(),
        None => bps_raw(5_000),
    }
}

/// The advance fee a recipient pays: the oracle's (when one is set; 0.25% when it gives none), otherwise the
/// fixed one (0.25% when none is set), raw.
pub open spec fn advance_fee_raw<O: AdvanceFeeOracle>(s: VaultSettings, oracle: &O, recipient: Seq<char>) -> nat {
    match s.advance_fee_oracle {
        None => match s.fixed_advance_fee {
            Some(f) => f.spec_raw_rate(),
            None => bps_raw(25),
        },
        Some(o) => match oracle.spec_advance_fee(o, recipient) {
            Some(f) => f.spec_raw_rate(),
            None => bps_raw(25),
        },
    }
}

/// The fee the oracle gives a recipient is well formed.
pub open spec fn oracle_fee_wf<O: AdvanceFeeOracle>(s: VaultSettings, oracle: &O, recipient: Seq<char>) -> bool {
    s.advance_fee_oracle matches Some(o) ==> (oracle.spec_advance_fee(o, recipient) matches Some(f) ==> f.wf())
}

/// An evaluation as values: the positions before, the redemption rate, and the positions after bringing them up to
/// date when the vault's shares gained value.
pub struct EvaluationView {
    pub prev_vault: VaultView,
    pub prev_cdp: CdpView,
    pub rate: Option<RedemptionRate>,
    pub updated: Option<(VaultView, CdpView)>,
}

impl EvaluationView {
    /// The vault after the evaluation.
    pub open spec fn latest_vault(self) -> VaultView {
        match self.updated {
            Some((v, _)) => v,
            None => self.prev_vault,
        }
    }

    /// The CDP after the evaluation.
    pub open spec fn latest_cdp(self) -> CdpView {
        match self.updated {
            Some((_, c)) => c,
            None => self.prev_cdp,
        }
    }
}

/// The evaluation of a vault and an account's CDP: the vault is updated with its yield at the current redemption
/// rate, and then the CDP with the vault's sum payment ratio; a loss in share value is an error.
pub open spec fn spec_evaluation<V: Vaults, B: BalanceSheet>(vaults: &V, sheet: &B, vault: Seq<char>, account: Seq<char>) -> Result<
    EvaluationView,
    LossError,
> {
    let s = vaults.settings(vault);
    let v = sheet_vault(sheet.vault_sheet(vault));
    let c = sheet_cdp(sheet.account_sheet(vault, account));
    let rate = rate_of(s.total_shares_issued, s.total_deposits_value);
    match spec_update_vault(v, rate, amo_raw(s), collateral_fee_raw(s), reserve_fee_raw(s)) {
        Some(Err(e)) => Err(e),
        Some(Ok(Some(nv))) => Ok(
            EvaluationView { prev_vault: v, prev_cdp: c, rate, updated: Some((nv, spec_update_cdp(nv.spr, c)->0)) },
        ),
        _ => Ok(EvaluationView { prev_vault: v, prev_cdp: c, rate, updated: None }),
    }
}

/// Evaluating reads a registered, existing vault with well formed rates and neither overflows.
pub open spec fn evaluation_ok<V: Vaults, B: BalanceSheet>(vaults: &V, sheet: &B, vault: Seq<char>, account: Seq<char>) -> bool {
    let s = vaults.settings(vault);
    let v = sheet_vault(sheet.vault_sheet(vault));
    let c = sheet_cdp(sheet.account_sheet(vault, account));
    let updated = spec_update_vault(
        v,
        rate_of(s.total_shares_issued, s.total_deposits_value),
        amo_raw(s),
        collateral_fee_raw(s),
        reserve_fee_raw(s),
    );
    &&& s.registered
    &&& s.found
    &&& settings_wf(s)
    &&& updated is Some
    &&& updated matches Some(Ok(Some(nv))) ==> spec_update_cdp(nv.spr, c) is Some
}

/// The positions of an evaluation.
pub struct Evaluation {
    pub prev_vault: VaultPosition,
    pub prev_cdp: Cdp,
    pub redemption_rate: Option<RedemptionRate>,
    pub updated: Option<(VaultPosition, Cdp)>,
}

impl View for Evaluation {
    type V = EvaluationView;

    open spec fn view(&self) -> EvaluationView {
        EvaluationView {
            prev_vault: self.prev_vault@,
            prev_cdp: self.prev_cdp@,
            rate: self.redemption_rate,
            updated: match self.updated {
                Some((v, c)) => Some((v@, c@)),
                None => None,
            },
        }
    }
}

impl Evaluation {
    /// The vault after the evaluation.
    pub fn latest_vault(&self) -> (r: VaultPosition)
        ensures
            r@ == self@.latest_vault(),
    {
        match &self.updated {
            Some((v, _)) => v.clone(),
            None => self.prev_vault.clone(),
        }
    }

    /// The CDP after the evaluation.
    pub fn latest_cdp(&self) -> (r: Cdp)
        ensures
            r@ == self@.latest_cdp(),
    {
        match &self.updated {
            Some((_, c)) => c.clone(),
            None => self.prev_cdp.clone(),
        }
    }
}

/// One command when the condition holds.
pub open spec fn opt_cmd(present: bool, cmd: CmdView) -> Seq<CmdView> {
    if present {
        seq![cmd]
    } else {
        Seq::empty()
    }
}

/// The commands that record a vault position's change, field by field.
pub open spec fn vault_cmds(id: Seq<char>, old: VaultView, new: VaultView) -> Seq<CmdView> {
    vault_pool_cmds(id, old, new) + vault_share_cmds(id, old, new)
}

/// The commands that record the pools' change.
pub open spec fn vault_pool_cmds(id: Seq<char>, old: VaultView, new: VaultView) -> Seq<CmdView> {
    opt_cmd(
        old.collateral_shares != new.collateral_shares,
        CmdView::SetCollateralShares { vault: id, shares: new.collateral_shares as u128 },
    ) + opt_cmd(
        old.collateral_quota != new.collateral_quota,
        CmdView::SetCollateralBalance { vault: id, balance: new.collateral_quota as u128 },
    ) + opt_cmd(
        old.reserve_shares != new.reserve_shares,
        CmdView::SetReserveShares { vault: id, shares: new.reserve_shares as u128 },
    ) + opt_cmd(
        old.reserve_quota != new.reserve_quota,
        CmdView::SetReserveBalance { vault: id, balance: new.reserve_quota as u128 },
    )
}

/// The commands that record the change of the unclaimed shares and the sum payment ratio.
pub open spec fn vault_share_cmds(id: Seq<char>, old: VaultView, new: VaultView) -> Seq<CmdView> {
    opt_cmd(
        old.treasury_shares != new.treasury_shares,
        CmdView::SetTreasuryShares { vault: id, shares: new.treasury_shares as u128 },
    ) + opt_cmd(old.amo_shares != new.amo_shares, CmdView::SetAmoShares { vault: id, shares: new.amo_shares as u128 })
        + opt_cmd(old.spr != new.spr, CmdView::SetOverallSumPaymentRatio { vault: id, spr: new.spr })
}

/// The commands that record a CDP's change, field by field.
pub open spec fn cdp_cmds(id: Seq<char>, account: Seq<char>, old: CdpView, new: CdpView) -> Seq<CmdView> {
    opt_cmd(
        old.collateral != new.collateral,
        CmdView::SetAccountCollateral { vault: id, account, collateral: new.collateral as u128 },
    ) + opt_cmd(old.debt != new.debt, CmdView::SetAccountDebt { vault: id, account, debt: new.debt as u128 })
        + opt_cmd(old.credit != new.credit, CmdView::SetAccountCredit { vault: id, account, credit: new.credit as u128 })
        + opt_cmd(old.spr != new.spr, CmdView::SetAccountSumPaymentRatio { vault: id, account, spr: new.spr })
}

/// Appends a command when the condition holds.
fn push_if(cmds: &mut Vec<Cmd>, present: bool, cmd: Cmd)
    ensures
        cmds_view(final(cmds)@) == cmds_view(old(cmds)@) + opt_cmd(present, cmd@),
{
    if present {
        cmds.push(cmd);
    }
    assert(cmds_view(cmds@) =~= cmds_view(old(cmds)@) + opt_cmd(present, cmd@));
}

/// Records the pools' change.
fn push_pool_cmds(id: &VaultId, before: &VaultPosition, after: &VaultPosition, cmds: &mut Vec<Cmd>)
    ensures
        cmds_view(final(cmds)@) == cmds_view(old(cmds)@) + vault_pool_cmds(id@, before@, after@),
{
    let ghost start = cmds_view(cmds@);
    push_if(
        cmds,
        before.collateral_pool.shares.0 != after.collateral_pool.shares.0,
        Cmd::BalanceSheet(BalanceSheetCmd::SetCollateralShares { vault: id.clone(), shares: after.collateral_pool.shares }),
    );
    push_if(
        cmds,
        before.collateral_pool.quota != after.collateral_pool.quota,
        Cmd::BalanceSheet(BalanceSheetCmd::SetCollateralBalance { vault: id.clone(), balance: after.collateral_pool.quota }),
    );
    push_if(
        cmds,
        before.reserve_pool.shares.0 != after.reserve_pool.shares.0,
        Cmd::BalanceSheet(BalanceSheetCmd::SetReserveShares { vault: id.clone(), shares: after.reserve_pool.shares }),
    );
    push_if(
        cmds,
        before.reserve_pool.quota != after.reserve_pool.quota,
        Cmd::BalanceSheet(BalanceSheetCmd::SetReserveBalance { vault: id.clone(), balance: after.reserve_pool.quota }),
    );
    assert(cmds_view(cmds@) =~= start + vault_pool_cmds(id@, before@, after@));
}

/// Records the change of the unclaimed shares and the sum payment ratio.
fn push_share_cmds(id: &VaultId, before: &VaultPosition, after: &VaultPosition, cmds: &mut Vec<Cmd>)
    ensures
        cmds_view(final(cmds)@) == cmds_view(old(cmds)@) + vault_share_cmds(id@, before@, after@),
{
    let ghost start = cmds_view(cmds@);
    push_if(
        cmds,
        before.treasury_shares.0 != after.treasury_shares.0,
        Cmd::BalanceSheet(BalanceSheetCmd::SetTreasuryShares { vault: id.clone(), shares: after.treasury_shares }),
    );
    push_if(
        cmds,
        before.amo_shares.0 != after.amo_shares.0,
        Cmd::BalanceSheet(BalanceSheetCmd::SetAmoShares { vault: id.clone(), shares: after.amo_shares }),
    );
    push_if(
        cmds,
        !before.spr.same_as(after.spr),
        Cmd::BalanceSheet(BalanceSheetCmd::SetOverallSumPaymentRatio { vault: id.clone(), spr: after.spr }),
    );
    assert(cmds_view(cmds@) =~= start + vault_share_cmds(id@, before@, after@));
}

/// Records a vault position's change.
fn push_update_vault_position_cmds(id: &VaultId, before: &VaultPosition, after: &VaultPosition, cmds: &mut Vec<Cmd>)
    ensures
        cmds_view(final(cmds)@) == cmds_view(old(cmds)@) + vault_cmds(id@, before@, after@),
{
    let ghost start = cmds_view(cmds@);
    push_pool_cmds(id, before, after, cmds);
    push_share_cmds(id, before, after, cmds);
    assert(cmds_view(cmds@) =~= start + vault_cmds(id@, before@, after@));
}

/// Records a CDP's change.
fn push_update_cdp_cmds(vault: &VaultId, account: &Account, before: &Cdp, after: &Cdp, cmds: &mut Vec<Cmd>)
    ensures
        cmds_view(final(cmds)@) == cmds_view(old(cmds)@) + cdp_cmds(vault@, account@, before@, after@),
{
    let ghost start = cmds_view(cmds@);
    push_if(
        cmds,
        before.collateral != after.collateral,
        Cmd::BalanceSheet(
            BalanceSheetCmd::SetAccountCollateral { vault: vault.clone(), account: account.clone(), collateral: after.collateral },
        ),
    );
    push_if(
        cmds,
        before.debt != after.debt,
        Cmd::BalanceSheet(BalanceSheetCmd::SetAccountDebt { vault: vault.clone(), account: account.clone(), debt: after.debt }),
    );
    push_if(
        cmds,
        before.credit != after.credit,
        Cmd::BalanceSheet(
            BalanceSheetCmd::SetAccountCredit { vault: vault.clone(), account: account.clone(), credit: after.credit },
        ),
    );
    push_if(
        cmds,
        !before.spr.same_as(after.spr),
        Cmd::BalanceSheet(
            BalanceSheetCmd::SetAccountSumPaymentRatio { vault: vault.clone(), account: account.clone(), spr: after.spr },
        ),
    );
    assert(cmds_view(cmds@) =~= start + cdp_cmds(vault@, account@, before@, after@));
}

impl<'a, V: Vaults, B: BalanceSheet, O: AdvanceFeeOracle> HubImpl<'a, V, B, O> {
    /// The vault position the balance sheet holds.
    pub fn current_vault_position(&self, vault: &VaultId) -> (r: VaultPosition)
        ensures
            r@ == sheet_vault(self.balance_sheet.vault_sheet(vault@)),
    {
        let collateral_shares = match self.balance_sheet.collateral_shares(vault) {
            Some(s) => s,
            None => SharesAmount(0),
        };
        let collateral_quota = match self.balance_sheet.collateral_balance(vault) {
            Some(q) => q,
            None => 0,
        };
        let reserve_shares = match self.balance_sheet.reserve_shares(vault) {
            Some(s) => s,
            None => SharesAmount(0),
        };
        let reserve_quota = match self.balance_sheet.reserve_balance(vault) {
            Some(q) => q,
            None => 0,
        };
        let treasury_shares = match self.balance_sheet.treasury_shares(vault) {
            Some(s) => s,
            None => SharesAmount(0),
        };
        let amo_shares = match self.balance_sheet.amo_shares(vault) {
            Some(s) => s,
            None => SharesAmount(0),
        };
        let spr = match self.balance_sheet.overall_sum_payment_ratio(vault) {
            Some(s) => s,
            None => SumPaymentRatio::zero(),
        };
        VaultPosition {
            collateral_pool: SharesPool { shares: collateral_shares, quota: collateral_quota },
            reserve_pool: SharesPool { shares: reserve_shares, quota: reserve_quota },
            treasury_shares,
            amo_shares,
            spr,
        }
    }

    /// The CDP of an account the balance sheet holds.
    pub fn current_cdp(&self, vault: &VaultId, account: &Account) -> (r: Cdp)
        ensures
            r@ == sheet_cdp(self.balance_sheet.account_sheet(vault@, account@)),
    {
        let collateral = match self.balance_sheet.account_collateral(vault, account) {
            Some(c) => c,
            None => 0,
        };
        let debt = match self.balance_sheet.account_debt(vault, account) {
            Some(d) => d,
            None => 0,
        };
        let credit = match self.balance_sheet.account_credit(vault, account) {
            Some(c) => c,
            None => 0,
        };
        let spr = match self.balance_sheet.account_sum_payment_ratio(vault, account) {
            Some(s) => s,
            None => SumPaymentRatio::zero(),
        };
        Cdp { collateral, debt, credit, spr }
    }

    /// The vault's redemption rate.
    fn redemption_rate(&self, id: &VaultId) -> (r: Option<RedemptionRate>)
        requires
            self.vaults.settings(id@).found,
        ensures
            r == rate_of(self.vaults.settings(id@).total_shares_issued, self.vaults.settings(id@).total_deposits_value),
    {
        let total_shares_issued = self.vaults.total_shares_issued(id);
        let total_deposit_value = self.vaults.total_deposits_value(id);
        RedemptionRate::new(total_shares_issued, total_deposit_value)
    }

    /// The vault's maximum loan-to-value.
    fn max_ltv(&self, vault: &VaultId) -> (r: MaxLtv)
        requires
            self.vaults.settings(vault@).registered,
            settings_wf(self.vaults.settings(vault@)),
        ensures
            r.wf(),
            r.spec_raw_rate() == max_ltv_raw(self.vaults.settings(vault@)),
    {
        match self.vaults.max_ltv(vault) {
            Some(m) => m,
            None => MaxLtv::default(),
        }
    }

    /// The advance fee a recipient pays.
    fn advance_fee(&self, vault: &VaultId, recipient: &Recipient) -> (r: AdvanceFee)
        requires
            self.vaults.settings(vault@).registered,
            settings_wf(self.vaults.settings(vault@)),
            oracle_fee_wf(self.vaults.settings(vault@), self.advance_fee_oracle, recipient@),
        ensures
            r.wf(),
            r.spec_raw_rate() == advance_fee_raw(self.vaults.settings(vault@), self.advance_fee_oracle, recipient@),
    {
        // check if a fee oracle is set
        let oracle = match self.vaults.advance_fee_oracle(vault) {
            Some(o) => o,
            None => {
                // if not, use the fixed fee
                return match self.vaults.fixed_advance_fee(vault) {
                    Some(f) => f,
                    None => AdvanceFee::default(),
                };
            },
        };
        // request fee for the recipient from the oracle
        match self.advance_fee_oracle.advance_fee(&oracle, recipient) {
            Some(f) => f,
            None => AdvanceFee::default(),
        }
    }

    /// Evaluates the vault and an account's CDP.
    fn evaluation(&self, vault_id: &VaultId, account: &Account) -> (r: Result<Evaluation, Error>)
        requires
            evaluation_ok(self.vaults, self.balance_sheet, vault_id@, account@),
        ensures
            match r {
                Ok(ev) => spec_evaluation(self.vaults, self.balance_sheet, vault_id@, account@) == Ok::<EvaluationView, LossError>(ev@),
                Err(e) => spec_evaluation(self.vaults, self.balance_sheet, vault_id@, account@) matches Err(l) && e
                    == Error::SharesValueLoss(l),
            },
    {
        let current_vault = self.current_vault_position(vault_id);
        let current_cdp = self.current_cdp(vault_id, account);
        let redemption_rate = self.redemption_rate(vault_id);
        proof {
            let s = self.vaults.settings(vault_id@);
            lemma_rate_of(s.total_shares_issued, s.total_deposits_value);
        }
        let amo_allocation = match self.vaults.amo_allocation(vault_id) {
            Some(a) => a,
            None => AmoAllocation::default(),
        };
        let collateral_yield_fee = match self.vaults.collateral_yield_fee(vault_id) {
            Some(f) => f,
            None => CollateralYieldFee::default(),
        };
        let reserve_yield_fee = match self.vaults.reserve_yield_fee(vault_id) {
            Some(f) => f,
            None => ReserveYieldFee::default(),
        };
        let updated = match update_vault(
            current_vault.clone(),
            redemption_rate,
            amo_allocation,
            collateral_yield_fee,
            reserve_yield_fee,
        ) {
            Ok(u) => u,
            Err(e) => {
                return Err(Error::SharesValueLoss(e));
            },
        };
        match updated {
            None => Ok(Evaluation { prev_vault: current_vault, prev_cdp: current_cdp, redemption_rate, updated: None }),
            Some(vault) => {
                let cdp = update_cdp(&vault, current_cdp.clone());
                Ok(
                    Evaluation {
                        prev_vault: current_vault,
                        prev_cdp: current_cdp,
                        redemption_rate,
                        updated: Some((vault, cdp)),
                    },
                )
            },
        }
    }
}

/// A proxy is set and it is not the sender.
pub open spec fn proxy_refuses(proxy: Option<Seq<char>>, sender: Seq<char>) -> bool {
    proxy matches Some(p) && p != sender
}

/// The result as commands (as values).
pub open spec fn result_view(r: Result<Vec<Cmd>, Error>) -> Result<Seq<CmdView>, Error> {
    match r {
        Ok(v) => Ok(cmds_view(v@)),
        Err(e) => Err(e),
    }
}

/// The result as commands (as values) and the CDP after them.
pub open spec fn response_view(r: Result<PositionResponse, Error>) -> Result<(Seq<CmdView>, CdpView), Error> {
    match r {
        Ok(p) => Ok((cmds_view(p.cmds@), p.cdp@)),
        Err(e) => Err(e),
    }
}

/// The commands recording the vault's update in an evaluation, if it was updated.
pub open spec fn updated_vault_cmds(ev: EvaluationView, id: Seq<char>) -> Seq<CmdView> {
    match ev.updated {
        Some((nv, _)) => vault_cmds(id, ev.prev_vault, nv),
        None => Seq::empty(),
    }
}

/// The commands recording the CDP's update in an evaluation (to the given account), if it was updated.
pub open spec fn updated_cdp_cmds(ev: EvaluationView, id: Seq<char>, account: Seq<char>) -> Seq<CmdView> {
    match ev.updated {
        Some((_, nc)) => cdp_cmds(id, account, ev.prev_cdp, nc),
        None => Seq::empty(),
    }
}

/// Evaluating a CDP: the commands recording the update of the vault and of the CDP (if they changed), and the CDP.
pub open spec fn spec_evaluate<V: Vaults, B: BalanceSheet>(vaults: &V, sheet: &B, id: Seq<char>, account: Seq<char>) -> Result<
    (Seq<CmdView>, CdpView),
    Error,
> {
    match spec_evaluation(vaults, sheet, id, account) {
        Err(l) => Err(Error::SharesValueLoss(l)),
        Ok(ev) => match ev.updated {
            None => Ok((Seq::empty(), ev.prev_cdp)),
            Some((nv, nc)) => Ok((vault_cmds(id, ev.prev_vault, nv) + cdp_cmds(id, account, ev.prev_cdp, nc), nc)),
        },
    }
}

/// A deposit into a vault, with what its callback is to do.
pub open spec fn deposit_cmd(
    id: Seq<char>,
    asset: Seq<char>,
    amount: u128,
    recipient: Seq<char>,
    reason: VaultDepositReason,
) -> CmdView {
    CmdView::Deposit { vault: id, asset, amount, callback_recipient: recipient, callback_reason: reason }
}

/// The outcome of a deposit request: the checks in order, then the evaluation of the recipient's CDP and the
/// deposit into the vault.
pub open spec fn spec_deposit<V: Vaults, B: BalanceSheet>(
    vaults: &V,
    sheet: &B,
    id: Seq<char>,
    sender: Seq<char>,
    asset: Seq<char>,
    amount: u128,
    recipient: Seq<char>,
) -> Result<Seq<CmdView>, Error> {
    let s = vaults.settings(id);
    if !s.registered {
        Err(Error::VaultNotRegistered)
    } else if !s.deposits_enabled {
        Err(Error::DepositsDisabled)
    } else if proxy_refuses(s.deposit_proxy, sender) {
        Err(Error::Unauthorized(UnauthorizedError))
    } else if amount == 0 {
        Err(Error::CannotDepositZero)
    } else if asset != s.deposit_asset {
        Err(Error::InvalidDepositAsset)
    } else {
        match spec_evaluate(vaults, sheet, id, recipient) {
            Err(e) => Err(e),
            Ok((cmds, _)) => Ok(cmds.push(deposit_cmd(id, asset, amount, recipient, VaultDepositReason::Deposit))),
        }
    }
}

/// The outcome of an advance request: the checks in order, the evaluation of the recipient's CDP, the advance
/// against it (recorded to the sender's account), minting to the recipient, and minting the fee to the fee
/// recipient when there is one.
pub open spec fn spec_advance_request<V: Vaults, B: BalanceSheet, O: AdvanceFeeOracle>(
    vaults: &V,
    sheet: &B,
    oracle: &O,
    id: Seq<char>,
    sender: Seq<char>,
    amount: u128,
    recipient: Seq<char>,
) -> Result<Seq<CmdView>, Error> {
    let s = vaults.settings(id);
    if !s.registered {
        Err(Error::VaultNotRegistered)
    } else if !s.advance_enabled {
        Err(Error::AdvanceDisabled)
    } else if amount == 0 {
        Err(Error::CannotAdvanceZero)
    } else if proxy_refuses(s.advance_proxy, sender) {
        Err(Error::Unauthorized(UnauthorizedError))
    } else {
        match spec_evaluation(vaults, sheet, id, recipient) {
            Err(l) => Err(Error::SharesValueLoss(l)),
            Ok(ev) => {
                let fee_rate = if s.advance_fee_recipient is Some {
                    Some(advance_fee_raw(s, oracle, recipient))
                } else {
                    None
                };
                match spec_advance(ev.latest_cdp(), amount as nat, max_ltv_raw(s), fee_rate) {
                    None => Err(Error::NotEnoughCollateral),
                    Some((nc, minted, fee)) => Ok(
                        cdp_cmds(id, sender, ev.prev_cdp, nc) + updated_vault_cmds(ev, id) + seq![
                            CmdView::Mint { synthetic: s.synthetic_asset, amount: minted as u128, recipient },
                        ] + match (fee, s.advance_fee_recipient) {
                            (Some(f), Some(fr)) => seq![
                                CmdView::Mint { synthetic: s.synthetic_asset, amount: f as u128, recipient: fr },
                            ],
                            _ => Seq::empty(),
                        },
                    ),
                }
            },
        }
    }
}

/// The outcome of repaying with a deposit of the underlying asset: the checks in order, the evaluation of the
/// sender's CDP (which must have debt), and the deposit into the vault.
pub open spec fn spec_repay_underlying<V: Vaults, B: BalanceSheet>(
    vaults: &V,
    sheet: &B,
    id: Seq<char>,
    sender: Seq<char>,
    asset: Seq<char>,
    amount: u128,
) -> Result<Seq<CmdView>, Error> {
    let s = vaults.settings(id);
    if !s.registered {
        Err(Error::VaultNotRegistered)
    } else if amount == 0 {
        Err(Error::CannotRepayZero)
    } else if asset != s.deposit_asset {
        Err(Error::InvalidDepositAsset)
    } else {
        match spec_evaluate(vaults, sheet, id, sender) {
            Err(e) => Err(e),
            Ok((cmds, cdp)) => if cdp.debt == 0 {
                Err(Error::NothingToRepay)
            } else {
                Ok(cmds.push(deposit_cmd(id, asset, amount, sender, VaultDepositReason::RepayUnderlying)))
            },
        }
    }
}

/// The outcome of repaying with synthetics: the checks in order, the evaluation of the sender's CDP (which must
/// have debt), the repayment and burning the synthetics.
pub open spec fn spec_repay_synthetic<V: Vaults, B: BalanceSheet>(
    vaults: &V,
    sheet: &B,
    id: Seq<char>,
    sender: Seq<char>,
    synthetic: Seq<char>,
    amount: u128,
) -> Result<(Seq<CmdView>, CdpView), Error> {
    let s = vaults.settings(id);
    if !s.registered {
        Err(Error::VaultNotRegistered)
    } else if amount == 0 {
        Err(Error::CannotRepayZero)
    } else if synthetic != s.synthetic_asset {
        Err(Error::InvalidSyntheticAsset)
    } else {
        match spec_evaluation(vaults, sheet, id, sender) {
            Err(l) => Err(Error::SharesValueLoss(l)),
            Ok(ev) => if ev.latest_cdp().debt == 0 {
                Err(Error::NothingToRepay)
            } else {
                let nc = spec_repay(ev.latest_cdp(), amount as nat)->0;
                Ok(
                    (
                        cdp_cmds(id, sender, ev.prev_cdp, nc) + updated_vault_cmds(ev, id) + seq![
                            CmdView::Burn { synthetic, amount },
                        ],
                        nc,
                    ),
                )
            },
        }
    }
}

/// Withdrawing collateral from a CDP and the collateral pool: (vault, CDP, shares to redeem).
pub open spec fn spec_withdraw(v: VaultView, c: CdpView, amount: nat, max_ltv: nat, rate: Option<RedemptionRate>) -> Result<
    (VaultView, CdpView, nat),
    WithdrawCollateralError,
> {
    match spec_withdraw_cdp_collateral(c, max_ltv, amount) {
        None => Err(WithdrawCollateralError::NotEnoughCollateral),
        Some(nc) => match rate {
            None => Err(WithdrawCollateralError::VaultLoss(LossError)),
            Some(rate) => match spec_withdraw_pool(v.collateral_shares, v.collateral_quota, rate, amount) {
                None => Err(WithdrawCollateralError::VaultLoss(LossError)),
                Some((shares, quota, s)) => Ok(
                    (VaultView { collateral_shares: shares, collateral_quota: quota, ..v }, nc, s),
                ),
            },
        },
    }
}

/// The outcome of withdrawing collateral: the checks in order, the evaluation of the sender's CDP, the
/// withdrawal, and redeeming the shares to the sender.
pub open spec fn spec_withdraw_collateral<V: Vaults, B: BalanceSheet>(
    vaults: &V,
    sheet: &B,
    id: Seq<char>,
    sender: Seq<char>,
    amount: u128,
) -> Result<(Seq<CmdView>, CdpView), Error> {
    let s = vaults.settings(id);
    if !s.registered {
        Err(Error::VaultNotRegistered)
    } else if amount == 0 {
        Err(Error::CannotWithdrawZero)
    } else {
        match spec_evaluation(vaults, sheet, id, sender) {
            Err(l) => Err(Error::SharesValueLoss(l)),
            Ok(ev) => match spec_withdraw(ev.latest_vault(), ev.latest_cdp(), amount as nat, max_ltv_raw(s), ev.rate) {
                Err(e) => Err(Error::Withdraw(e)),
                Ok((nv, nc, shares)) => Ok(
                    (
                        vault_cmds(id, ev.prev_vault, nv) + cdp_cmds(id, sender, ev.prev_cdp, nc) + seq![
                            CmdView::Redeem { vault: id, shares: s.shares_asset, amount: shares as u128, recipient: sender },
                        ],
                        nc,
                    ),
                ),
            },
        }
    }
}

/// A CDP with nothing in it.
pub open spec fn empty_cdp() -> CdpView {
    CdpView { collateral: 0, debt: 0, credit: 0, spr: 0 }
}

/// The outcome of self-liquidating: the evaluation of the sender's CDP, closing it, then minting its credit and
/// redeeming its remaining collateral to the sender.
pub open spec fn spec_self_liquidate_position<V: Vaults, B: BalanceSheet>(
    vaults: &V,
    sheet: &B,
    id: Seq<char>,
    sender: Seq<char>,
) -> Result<Seq<CmdView>, Error> {
    let s = vaults.settings(id);
    if !s.registered {
        Err(Error::VaultNotRegistered)
    } else {
        match spec_evaluation(vaults, sheet, id, sender) {
            Err(l) => Err(Error::SharesValueLoss(l)),
            Ok(ev) => match spec_self_liquidate(ev.latest_vault(), ev.latest_cdp(), ev.rate)->0 {
                Err(e) => Err(Error::SelfLiquidate(e)),
                Ok((nv, mint_credit, redeem_shares)) => Ok(
                    vault_cmds(id, ev.prev_vault, nv) + cdp_cmds(id, sender, ev.prev_cdp, empty_cdp()) + match mint_credit {
                        Some(a) => seq![CmdView::Mint { synthetic: s.synthetic_asset, amount: a as u128, recipient: sender }],
                        None => Seq::empty(),
                    } + match redeem_shares {
                        Some(sh) => seq![
                            CmdView::Redeem { vault: id, shares: s.shares_asset, amount: sh as u128, recipient: sender },
                        ],
                        None => Seq::empty(),
                    },
                ),
            },
        }
    }
}

/// The outcome of converting credit into collateral: the checks in order, the evaluation of the sender's CDP and
/// the conversion.
pub open spec fn spec_convert_credit_request<V: Vaults, B: BalanceSheet>(
    vaults: &V,
    sheet: &B,
    id: Seq<char>,
    sender: Seq<char>,
    amount: u128,
) -> Result<(Seq<CmdView>, CdpView), Error> {
    let s = vaults.settings(id);
    if amount == 0 {
        Err(Error::CannotConvertZero)
    } else if !s.registered {
        Err(Error::VaultNotRegistered)
    } else {
        match spec_evaluation(vaults, sheet, id, sender) {
            Err(l) => Err(Error::SharesValueLoss(l)),
            Ok(ev) => match spec_convert_credit(ev.latest_vault(), ev.latest_cdp(), amount as nat, ev.rate)->0 {
                Err(e) => Err(Error::ConvertCredit(e)),
                Ok((nv, nc)) => Ok((vault_cmds(id, ev.prev_vault, nv) + cdp_cmds(id, sender, ev.prev_cdp, nc), nc)),
            },
        }
    }
}

/// Redeeming reserves: (vault, shares to redeem).
pub open spec fn spec_redeem(v: VaultView, amount: nat, rate: Option<RedemptionRate>) -> Result<(VaultView, nat), RedeemReservesError> {
    if v.reserve_quota < amount {
        Err(RedeemReservesError::InsufficientReserves)
    } else {
        match rate {
            None => Err(RedeemReservesError::VaultLoss(LossError)),
            Some(rate) => match spec_withdraw_pool(v.reserve_shares, v.reserve_quota, rate, amount) {
                None => Err(RedeemReservesError::VaultLoss(LossError)),
                Some((shares, quota, s)) => Ok((VaultView { reserve_shares: shares, reserve_quota: quota, ..v }, s)),
            },
        }
    }
}

/// The outcome of redeeming synthetics for reserves: the checks in order, the evaluation (of the sender's CDP,
/// its update recorded to the recipient's account), the redemption to the recipient and burning the synthetics.
pub open spec fn spec_redeem_synthetic<V: Vaults, B: BalanceSheet>(
    vaults: &V,
    sheet: &B,
    id: Seq<char>,
    sender: Seq<char>,
    synthetic: Seq<char>,
    amount: u128,
    recipient: Seq<char>,
) -> Result<Seq<CmdView>, Error> {
    let s = vaults.settings(id);
    if amount == 0 {
        Err(Error::CannotRedeemZero)
    } else if !s.registered {
        Err(Error::VaultNotRegistered)
    } else if synthetic != s.synthetic_asset {
        Err(Error::InvalidSyntheticAsset)
    } else if proxy_refuses(s.redeem_proxy, sender) {
        Err(Error::Unauthorized(UnauthorizedError))
    } else {
        match spec_evaluation(vaults, sheet, id, sender) {
            Err(l) => Err(Error::SharesValueLoss(l)),
            Ok(ev) => match spec_redeem(ev.latest_vault(), amount as nat, ev.rate) {
                Err(e) => Err(Error::Redeem(e)),
                Ok((nv, shares)) => Ok(
                    vault_cmds(id, ev.prev_vault, nv) + updated_cdp_cmds(ev, id, recipient) + seq![
                        CmdView::Redeem { vault: id, shares: s.shares_asset, amount: shares as u128, recipient },
                        CmdView::Burn { synthetic, amount },
                    ],
                ),
            },
        }
    }
}

/// The outcome of a mint request: the checks in order, the evaluation of the recipient's CDP and the deposit into
/// the vault (whose callback mints).
pub open spec fn spec_mint_synthetic<V: Vaults, B: BalanceSheet>(
    vaults: &V,
    sheet: &B,
    id: Seq<char>,
    sender: Seq<char>,
    asset: Seq<char>,
    amount: u128,
    recipient: Seq<char>,
) -> Result<Seq<CmdView>, Error> {
    let s = vaults.settings(id);
    if amount == 0 {
        Err(Error::CannotMintZero)
    } else if !s.registered {
        Err(Error::VaultNotRegistered)
    } else if !s.deposits_enabled {
        Err(Error::DepositsDisabled)
    } else if proxy_refuses(s.mint_proxy, sender) {
        Err(Error::Unauthorized(UnauthorizedError))
    } else if asset != s.deposit_asset {
        Err(Error::InvalidDepositAsset)
    } else {
        match spec_evaluate(vaults, sheet, id, recipient) {
            Err(e) => Err(e),
            Ok((cmds, _)) => Ok(cmds.push(deposit_cmd(id, asset, amount, recipient, VaultDepositReason::Mint))),
        }
    }
}

/// The outcome of a vault's deposit callback: a deposit adds collateral to the recipient's CDP and the collateral
/// pool; a repayment adds to the reserves and repays the recipient's debt; a mint adds to the reserves and mints
/// the deposit's value to the recipient.
pub open spec fn spec_vault_deposit_callback<V: Vaults, B: BalanceSheet>(
    vaults: &V,
    sheet: &B,
    id: Seq<char>,
    recipient: Seq<char>,
    reason: VaultDepositReason,
    issued_shares: nat,
    deposit_value: nat,
) -> Seq<CmdView> {
    let v = sheet_vault(sheet.vault_sheet(id));
    let c = sheet_cdp(sheet.account_sheet(id, recipient));
    let with_reserves = VaultView {
        reserve_shares: v.reserve_shares + issued_shares,
        reserve_quota: v.reserve_quota + deposit_value,
        ..v
    };
    match reason {
        VaultDepositReason::Deposit => vault_cmds(
            id,
            v,
            VaultView {
                collateral_shares: v.collateral_shares + issued_shares,
                collateral_quota: v.collateral_quota + deposit_value,
                ..v
            },
        ) + cdp_cmds(id, recipient, c, CdpView { collateral: c.collateral + deposit_value, ..c }),
        VaultDepositReason::RepayUnderlying => vault_cmds(id, v, with_reserves) + cdp_cmds(
            id,
            recipient,
            c,
            spec_repay(c, deposit_value)->0,
        ),
        VaultDepositReason::Mint => vault_cmds(id, v, with_reserves) + seq![
            CmdView::Mint {
                synthetic: vaults.settings(id).synthetic_asset,
                amount: deposit_value as u128,
                recipient,
            },
        ],
    }
}

/// The deposit callback neither overflows nor reads an unregistered vault.
pub open spec fn vault_deposit_callback_ok<V: Vaults, B: BalanceSheet>(
    vaults: &V,
    sheet: &B,
    id: Seq<char>,
    recipient: Seq<char>,
    reason: VaultDepositReason,
    issued_shares: nat,
    deposit_value: nat,
) -> bool {
    let v = sheet_vault(sheet.vault_sheet(id));
    let c = sheet_cdp(sheet.account_sheet(id, recipient));
    &&& vaults.settings(id).registered
    &&& match reason {
        VaultDepositReason::Deposit => {
            &&& c.collateral + deposit_value <= u128::MAX
            &&& v.collateral_shares + issued_shares <= u128::MAX
            &&& v.collateral_quota + deposit_value <= u128::MAX
        },
        VaultDepositReason::RepayUnderlying => {
            &&& v.reserve_shares + issued_shares <= u128::MAX
            &&& v.reserve_quota + deposit_value <= u128::MAX
            &&& spec_repay(c, deposit_value) is Some
        },
        VaultDepositReason::Mint => {
            &&& v.reserve_shares + issued_shares <= u128::MAX
            &&& v.reserve_quota + deposit_value <= u128::MAX
        },
    }
}

/// The outcome of the treasury claiming its shares: the checks in order, the evaluation of the treasury's CDP,
/// and sending the unclaimed treasury shares to the treasury.
pub open spec fn spec_claim_treasury_shares<V: Vaults, B: BalanceSheet>(vaults: &V, sheet: &B, id: Seq<char>, sender: Seq<char>) -> Result<
    Seq<CmdView>,
    Error,
> {
    let s = vaults.settings(id);
    if !s.registered {
        Err(Error::VaultNotRegistered)
    } else {
        match sheet.spec_treasury() {
            None => Err(Error::NoTreasurySet),
            Some(treasury) => if sender != treasury {
                Err(Error::Unauthorized(UnauthorizedError))
            } else {
                match spec_evaluation(vaults, sheet, id, sender) {
                    Err(l) => Err(Error::SharesValueLoss(l)),
                    Ok(ev) => if ev.latest_vault().treasury_shares == 0 {
                        Err(Error::Claim(super::positions::NothingToClaimError))
                    } else {
                        Ok(
                            vault_cmds(id, ev.prev_vault, VaultView { treasury_shares: 0, ..ev.latest_vault() })
                                + updated_cdp_cmds(ev, id, sender) + seq![
                                CmdView::SendShares {
                                    shares: s.shares_asset,
                                    amount: ev.latest_vault().treasury_shares as u128,
                                    recipient: treasury,
                                },
                            ],
                        )
                    },
                }
            },
        }
    }
}

/// The outcome of claiming the AMO's shares: the checks in order, the evaluation of the sender's CDP, and sending
/// the unclaimed AMO shares to the AMO.
pub open spec fn spec_claim_amo_shares<V: Vaults, B: BalanceSheet>(vaults: &V, sheet: &B, id: Seq<char>, sender: Seq<char>) -> Result<
    Seq<CmdView>,
    Error,
> {
    let s = vaults.settings(id);
    if !s.registered {
        Err(Error::VaultNotRegistered)
    } else {
        match s.amo {
            None => Err(Error::NoAmoSet),
            Some(amo) => if sender != amo {
                Err(Error::Unauthorized(UnauthorizedError))
            } else {
                match spec_evaluation(vaults, sheet, id, sender) {
                Err(l) => Err(Error::SharesValueLoss(l)),
                Ok(ev) => if ev.latest_vault().amo_shares == 0 {
                    Err(Error::Claim(super::positions::NothingToClaimError))
                } else {
                    Ok(
                        vault_cmds(id, ev.prev_vault, VaultView { amo_shares: 0, ..ev.latest_vault() }) + updated_cdp_cmds(
                            ev,
                            id,
                            sender,
                        ) + seq![
                            CmdView::SendShares {
                                shares: s.shares_asset,
                                amount: ev.latest_vault().amo_shares as u128,
                                recipient: amo,
                            },
                        ],
                    )
                },
                }
            },
        }
    }
}

/// The sender is refused by the proxy, if one is set.
fn refused_by(proxy: Option<Identifier>, sender: &Sender) -> (r: bool)
    ensures
        r == proxy_refuses(super::opt_id(proxy), sender@),
{
    match proxy {
        Some(p) => !p.same_as(sender),
        None => false,
    }
}

impl<'a, V: Vaults, B: BalanceSheet, O: AdvanceFeeOracle> HubImpl<'a, V, B, O> {
    /// Brings the vault and the account's CDP up to date with the vault's yield.
    pub fn evaluate(&self, vault_id: VaultId, sender: Sender) -> (r: Result<PositionResponse, Error>)
        requires
            evaluation_ok(self.vaults, self.balance_sheet, vault_id@, sender@),
        ensures
            response_view(r) == spec_evaluate(self.vaults, self.balance_sheet, vault_id@, sender@),
    {
        let evaluation = match self.evaluation(&vault_id, &sender) {
            Ok(ev) => ev,
            Err(e) => {
                return Err(e);
            },
        };
        let Evaluation { prev_vault, prev_cdp, redemption_rate, updated } = evaluation;
        match updated {
            None => {
                let cmds: Vec<Cmd> = Vec::new();
                assert(cmds_view(cmds@) =~= Seq::<CmdView>::empty());
                Ok(PositionResponse { cmds, cdp: prev_cdp })
            },
            Some((updated_vault, updated_cdp)) => {
                let mut cmds: Vec<Cmd> = Vec::new();
                assert(cmds_view(cmds@) =~= Seq::<CmdView>::empty());
                push_update_vault_position_cmds(&vault_id, &prev_vault, &updated_vault, &mut cmds);
                push_update_cdp_cmds(&vault_id, &sender, &prev_cdp, &updated_cdp, &mut cmds);
                assert(cmds_view(cmds@) =~= vault_cmds(vault_id@, prev_vault@, updated_vault@) + cdp_cmds(
                    vault_id@,
                    sender@,
                    prev_cdp@,
                    updated_cdp@,
                ));
                Ok(PositionResponse { cmds, cdp: updated_cdp })
            },
        }
    }

    /// Deposits into a vault on behalf of the recipient, whose CDP the callback credits.
    pub fn deposit(
        &self,
        vault: VaultId,
        sender: Sender,
        deposit_asset: Asset,
        deposit_amount: DepositAmount,
        recipient: Recipient,
    ) -> (r: Result<Vec<Cmd>, Error>)
        requires
            ({
                let s = self.vaults.settings(vault@);
                s.registered && s.deposits_enabled && !proxy_refuses(s.deposit_proxy, sender@) && deposit_amount.0 != 0
                    ==> s.found && (deposit_asset@ == s.deposit_asset ==> evaluation_ok(
                    self.vaults,
                    self.balance_sheet,
                    vault@,
                    recipient@,
                ))
            }),
        ensures
            result_view(r) == spec_deposit(
                self.vaults,
                self.balance_sheet,
                vault@,
                sender@,
                deposit_asset@,
                deposit_amount.0,
                recipient@,
            ),
    {
        if !self.vaults.is_registered(&vault) {
            return Err(Error::VaultNotRegistered);
        }
        if !self.vaults.deposits_enabled(&vault) {
            return Err(Error::DepositsDisabled);
        }
        if refused_by(self.vaults.deposit_proxy(&vault), &sender) {
            return Err(Error::Unauthorized(UnauthorizedError));
        }
        if deposit_amount.0 == 0 {
            return Err(Error::CannotDepositZero);
        }
        if !deposit_asset.same_as(&self.vaults.deposit_asset(&vault)) {
            return Err(Error::InvalidDepositAsset);
        }
        let response = match self.evaluate(vault.clone(), recipient.clone()) {
            Ok(p) => p,
            Err(e) => {
                return Err(e);
            },
        };
        let mut cmds = response.cmds;
        super::push_cmd(
            &mut cmds,
            Cmd::Vault(
                VaultCmd::Deposit {
                    vault,
                    asset: deposit_asset,
                    amount: deposit_amount,
                    callback_recipient: recipient,
                    callback_reason: VaultDepositReason::Deposit,
                },
            ),
        );
        Ok(cmds)
    }

    /// Advances synthetics against the recipient's CDP (recorded to the sender's account), minting them to the
    /// recipient and the fee to the fee recipient.
    pub fn advance(&self, vault_id: VaultId, sender: Sender, advance_amount: Debt, recipient: Recipient) -> (r: Result<
        Vec<Cmd>,
        Error,
    >)
        requires
            ({
                let s = self.vaults.settings(vault_id@);
                s.registered && s.advance_enabled && advance_amount != 0 && !proxy_refuses(s.advance_proxy, sender@) ==> {
                    &&& evaluation_ok(self.vaults, self.balance_sheet, vault_id@, recipient@)
                    &&& s.advance_fee_recipient is Some ==> oracle_fee_wf(s, self.advance_fee_oracle, recipient@)
                }
            }),
        ensures
            result_view(r) == spec_advance_request(
                self.vaults,
                self.balance_sheet,
                self.advance_fee_oracle,
                vault_id@,
                sender@,
                advance_amount,
                recipient@,
            ),
    {
        if !self.vaults.is_registered(&vault_id) {
            return Err(Error::VaultNotRegistered);
        }
        if !self.vaults.advance_enabled(&vault_id) {
            return Err(Error::AdvanceDisabled);
        }
        if advance_amount == 0 {
            return Err(Error::CannotAdvanceZero);
        }
        if refused_by(self.vaults.advance_proxy(&vault_id), &sender) {
            return Err(Error::Unauthorized(UnauthorizedError));
        }
        let evaluation = match self.evaluation(&vault_id, &recipient) {
            Ok(ev) => ev,
            Err(e) => {
                return Err(e);
            },
        };
        let advance_fee_recipient = self.vaults.advance_fee_recipient(&vault_id);
        let max_ltv = self.max_ltv(&vault_id);
        let fee = match &advance_fee_recipient {
            Some(_) => Some(self.advance_fee(&vault_id, &recipient)),
            None => None,
        };
        let ghost st = self.vaults.settings(vault_id@);
        let ghost fee_rate = if st.advance_fee_recipient is Some {
            Some(advance_fee_raw(st, self.advance_fee_oracle, recipient@))
        } else {
            None::<nat>
        };
        assert(match fee {
            Some(f) => Some(f.spec_raw_rate()),
            None => None::<nat>,
        } == fee_rate);
        let ghost latest = evaluation@.latest_cdp();
        let advanced = match advance(evaluation.latest_cdp(), advance_amount, max_ltv, fee) {
            Some(a) => a,
            None => {
                return Err(Error::NotEnoughCollateral);
            },
        };
        assert(spec_advance(latest, advance_amount as nat, max_ltv_raw(st), fee_rate) == Some(
            (advanced.cdp@, advanced.amount as nat, match advanced.fee {
                Some(f) => Some(f as nat),
                None => None::<nat>,
            }),
        ));
        let synthetic = self.vaults.synthetic_asset(&vault_id);
        let mut cmds: Vec<Cmd> = Vec::new();
        assert(cmds_view(cmds@) =~= Seq::<CmdView>::empty());
        push_update_cdp_cmds(&vault_id, &sender, &evaluation.prev_cdp, &advanced.cdp, &mut cmds);
        let ghost after_cdp = cmds_view(cmds@);
        match &evaluation.updated {
            Some((updated_vault, _)) => {
                push_update_vault_position_cmds(&vault_id, &evaluation.prev_vault, updated_vault, &mut cmds);
            },
            None => {},
        }
        assert(cmds_view(cmds@) =~= after_cdp + updated_vault_cmds(evaluation@, vault_id@));
        let ghost before_mint = cmds_view(cmds@);
        super::push_cmd(
            &mut cmds,
            Cmd::Mint(MintCmd::Mint { synthetic: synthetic.clone(), amount: advanced.amount, recipient }),
        );
        let ghost after_mint = cmds_view(cmds@);
        match (advanced.fee, advance_fee_recipient) {
            (Some(fee), Some(fee_recipient)) => {
                super::push_cmd(
                    &mut cmds,
                    Cmd::Mint(MintCmd::Mint { synthetic: synthetic.clone(), amount: fee, recipient: fee_recipient }),
                );
            },
            _ => {},
        }
        proof {
            let ev = evaluation@;
            let head = cdp_cmds(vault_id@, sender@, ev.prev_cdp, advanced.cdp@) + updated_vault_cmds(ev, vault_id@) + seq![
                CmdView::Mint { synthetic: st.synthetic_asset, amount: advanced.amount, recipient: recipient@ },
            ];
            assert(after_mint =~= head);
            let tail = match (
                match advanced.fee {
                    Some(f) => Some(f as nat),
                    None => None::<nat>,
                },
                st.advance_fee_recipient,
            ) {
                (Some(f), Some(fr)) => seq![CmdView::Mint { synthetic: st.synthetic_asset, amount: f as u128, recipient: fr }],
                _ => Seq::<CmdView>::empty(),
            };
            assert(cmds_view(cmds@) =~= head + tail);
        }
        Ok(cmds)
    }
}

impl<'a, V: Vaults, B: BalanceSheet, O: AdvanceFeeOracle> HubImpl<'a, V, B, O> {
    /// Repays the sender's debt with a deposit of the underlying asset, which the callback applies.
    pub fn repay_underlying(&self, vault: VaultId, sender: Sender, deposit_asset: Asset, deposit_amount: DepositAmount) -> (r: Result<
        Vec<Cmd>,
        Error,
    >)
        requires
            ({
                let s = self.vaults.settings(vault@);
                s.registered && deposit_amount.0 != 0 ==> s.found && (deposit_asset@ == s.deposit_asset ==> evaluation_ok(
                    self.vaults,
                    self.balance_sheet,
                    vault@,
                    sender@,
                ))
            }),
        ensures
            result_view(r) == spec_repay_underlying(
                self.vaults,
                self.balance_sheet,
                vault@,
                sender@,
                deposit_asset@,
                deposit_amount.0,
            ),
    {
        if !self.vaults.is_registered(&vault) {
            return Err(Error::VaultNotRegistered);
        }
        if deposit_amount.0 == 0 {
            return Err(Error::CannotRepayZero);
        }
        if !deposit_asset.same_as(&self.vaults.deposit_asset(&vault)) {
            return Err(Error::InvalidDepositAsset);
        }
        let response = match self.evaluate(vault.clone(), sender.clone()) {
            Ok(p) => p,
            Err(e) => {
                return Err(e);
            },
        };
        if response.cdp.debt == 0 {
            return Err(Error::NothingToRepay);
        }
        let mut cmds = response.cmds;
        super::push_cmd(
            &mut cmds,
            Cmd::Vault(
                VaultCmd::Deposit {
                    vault,
                    asset: deposit_asset,
                    amount: deposit_amount,
                    callback_recipient: sender,
                    callback_reason: VaultDepositReason::RepayUnderlying,
                },
            ),
        );
        Ok(cmds)
    }

    /// Repays the sender's debt with synthetics, which are burnt.
    pub fn repay_synthetic(
        &self,
        vault_id: VaultId,
        sender: Sender,
        synthetic_asset: Synthetic,
        synthetic_amount: SyntheticAmount,
    ) -> (r: Result<PositionResponse, Error>)
        requires
            ({
                let s = self.vaults.settings(vault_id@);
                s.registered && synthetic_amount != 0 && synthetic_asset@ == s.synthetic_asset ==> {
                    &&& evaluation_ok(self.vaults, self.balance_sheet, vault_id@, sender@)
                    &&& spec_evaluation(self.vaults, self.balance_sheet, vault_id@, sender@) matches Ok(ev) ==> (
                    ev.latest_cdp().debt != 0 ==> spec_repay(ev.latest_cdp(), synthetic_amount as nat) is Some)
                }
            }),
        ensures
            response_view(r) == spec_repay_synthetic(
                self.vaults,
                self.balance_sheet,
                vault_id@,
                sender@,
                synthetic_asset@,
                synthetic_amount,
            ),
    {
        if !self.vaults.is_registered(&vault_id) {
            return Err(Error::VaultNotRegistered);
        }
        if synthetic_amount == 0 {
            return Err(Error::CannotRepayZero);
        }
        if !synthetic_asset.same_as(&self.vaults.synthetic_asset(&vault_id)) {
            return Err(Error::InvalidSyntheticAsset);
        }
        let evaluation = match self.evaluation(&vault_id, &sender) {
            Ok(ev) => ev,
            Err(e) => {
                return Err(e);
            },
        };
        if evaluation.latest_cdp().debt == 0 {
            return Err(Error::NothingToRepay);
        }
        let ghost latest = evaluation@.latest_cdp();
        let updated_cdp = repay(evaluation.latest_cdp(), synthetic_amount);
        assert(spec_repay(latest, synthetic_amount as nat) == Some(updated_cdp@));
        let mut cmds: Vec<Cmd> = Vec::new();
        assert(cmds_view(cmds@) =~= Seq::<CmdView>::empty());
        push_update_cdp_cmds(&vault_id, &sender, &evaluation.prev_cdp, &updated_cdp, &mut cmds);
        let ghost after_cdp = cmds_view(cmds@);
        match &evaluation.updated {
            Some((updated_vault, _)) => {
                push_update_vault_position_cmds(&vault_id, &evaluation.prev_vault, updated_vault, &mut cmds);
            },
            None => {},
        }
        assert(cmds_view(cmds@) =~= after_cdp + updated_vault_cmds(evaluation@, vault_id@));
        let ghost before_burn = cmds_view(cmds@);
        super::push_cmd(&mut cmds, Cmd::Mint(MintCmd::Burn { synthetic: synthetic_asset, amount: synthetic_amount }));
        assert(cmds_view(cmds@) =~= before_burn + seq![
            CmdView::Burn { synthetic: synthetic_asset@, amount: synthetic_amount },
        ]);
        Ok(PositionResponse { cmds, cdp: updated_cdp })
    }

    /// Withdraws collateral from the sender's CDP, redeeming the shares worth it to the sender.
    pub fn withdraw_collateral(&self, vault_id: VaultId, sender: Sender, collateral_amount: Collateral) -> (r: Result<
        PositionResponse,
        Error,
    >)
        requires
            ({
                let s = self.vaults.settings(vault_id@);
                s.registered && collateral_amount != 0 ==> evaluation_ok(self.vaults, self.balance_sheet, vault_id@, sender@)
            }),
        ensures
            response_view(r) == spec_withdraw_collateral(
                self.vaults,
                self.balance_sheet,
                vault_id@,
                sender@,
                collateral_amount,
            ),
    {
        if !self.vaults.is_registered(&vault_id) {
            return Err(Error::VaultNotRegistered);
        }
        if collateral_amount == 0 {
            return Err(Error::CannotWithdrawZero);
        }
        let evaluation = match self.evaluation(&vault_id, &sender) {
            Ok(ev) => ev,
            Err(e) => {
                return Err(e);
            },
        };
        let max_ltv = self.max_ltv(&vault_id);
        proof {
            let st = self.vaults.settings(vault_id@);
            lemma_rate_of(st.total_shares_issued, st.total_deposits_value);
        }
        let ghost ev = evaluation@;
        let ghost st = self.vaults.settings(vault_id@);
        let (updated_vault, updated_cdp, shares_amount) = match withdraw_collateral(
            evaluation.latest_vault(),
            evaluation.latest_cdp(),
            collateral_amount,
            max_ltv,
            evaluation.redemption_rate,
        ) {
            Ok(w) => w,
            Err(e) => {
                assert(spec_withdraw(ev.latest_vault(), ev.latest_cdp(), collateral_amount as nat, max_ltv_raw(st), ev.rate)
                    == Err::<(VaultView, CdpView, nat), WithdrawCollateralError>(e));
                return Err(Error::Withdraw(e));
            },
        };
        assert(spec_withdraw(ev.latest_vault(), ev.latest_cdp(), collateral_amount as nat, max_ltv_raw(st), ev.rate)
            == Ok::<(VaultView, CdpView, nat), WithdrawCollateralError>(
            (updated_vault@, updated_cdp@, shares_amount.0 as nat),
        ));
        let mut cmds: Vec<Cmd> = Vec::new();
        assert(cmds_view(cmds@) =~= Seq::<CmdView>::empty());
        push_update_vault_position_cmds(&vault_id, &evaluation.prev_vault, &updated_vault, &mut cmds);
        push_update_cdp_cmds(&vault_id, &sender, &evaluation.prev_cdp, &updated_cdp, &mut cmds);
        let shares_asset = self.vaults.shares_asset(&vault_id);
        let ghost before_redeem = cmds_view(cmds@);
        let ghost redeem = CmdView::Redeem {
            vault: vault_id@,
            shares: shares_asset@,
            amount: shares_amount.0,
            recipient: sender@,
        };
        super::push_cmd(
            &mut cmds,
            Cmd::Vault(VaultCmd::Redeem { vault: vault_id, shares: shares_asset, amount: shares_amount, recipient: sender }),
        );
        assert(cmds_view(cmds@) =~= before_redeem + seq![redeem]);
        Ok(PositionResponse { cmds, cdp: updated_cdp })
    }

    /// Closes the sender's CDP, minting its credit and redeeming its remaining collateral to the sender.
    pub fn self_liquidate_position(&self, vault_id: VaultId, sender: Sender) -> (r: Result<Vec<Cmd>, Error>)
        requires
            self.vaults.settings(vault_id@).registered ==> {
                &&& evaluation_ok(self.vaults, self.balance_sheet, vault_id@, sender@)
                &&& spec_evaluation(self.vaults, self.balance_sheet, vault_id@, sender@) matches Ok(ev) ==> spec_self_liquidate(
                    ev.latest_vault(),
                    ev.latest_cdp(),
                    ev.rate,
                ) is Some
            },
        ensures
            result_view(r) == spec_self_liquidate_position(self.vaults, self.balance_sheet, vault_id@, sender@),
    {
        if !self.vaults.is_registered(&vault_id) {
            return Err(Error::VaultNotRegistered);
        }
        let evaluation = match self.evaluation(&vault_id, &sender) {
            Ok(ev) => ev,
            Err(e) => {
                return Err(e);
            },
        };
        proof {
            let st = self.vaults.settings(vault_id@);
            lemma_rate_of(st.total_shares_issued, st.total_deposits_value);
        }
        let ghost ev = evaluation@;
        let liquidation = match self_liquidate(
            evaluation.latest_vault(),
            evaluation.latest_cdp(),
            evaluation.redemption_rate,
        ) {
            Ok(l) => l,
            Err(e) => {
                assert(spec_self_liquidate(ev.latest_vault(), ev.latest_cdp(), ev.rate)->0
                    == Err::<SelfLiquidationView, SelfLiquidateError>(e));
                return Err(Error::SelfLiquidate(e));
            },
        };
        let ghost mint_credit = match liquidation.mint_credit {
            Some(c) => Some(c as nat),
            None => None::<nat>,
        };
        let ghost redeem_shares = match liquidation.redeem_shares {
            Some(sh) => Some(sh.0 as nat),
            None => None::<nat>,
        };
        assert(spec_self_liquidate(ev.latest_vault(), ev.latest_cdp(), ev.rate)->0
            == Ok::<SelfLiquidationView, SelfLiquidateError>((liquidation.vault@, mint_credit, redeem_shares)));
        assert(liquidation.cdp@ == empty_cdp());
        let mut cmds: Vec<Cmd> = Vec::new();
        assert(cmds_view(cmds@) =~= Seq::<CmdView>::empty());
        push_update_vault_position_cmds(&vault_id, &evaluation.prev_vault, &liquidation.vault, &mut cmds);
        push_update_cdp_cmds(&vault_id, &sender, &evaluation.prev_cdp, &liquidation.cdp, &mut cmds);
        let ghost base = cmds_view(cmds@);
        let ghost st = self.vaults.settings(vault_id@);
        match liquidation.mint_credit {
            Some(amount) => {
                let synthetic = self.vaults.synthetic_asset(&vault_id);
                super::push_cmd(&mut cmds, Cmd::Mint(MintCmd::Mint { synthetic, amount, recipient: sender.clone() }));
            },
            None => {},
        }
        let ghost with_mint = cmds_view(cmds@);
        assert(with_mint =~= base + match liquidation.mint_credit {
            Some(a) => seq![CmdView::Mint { synthetic: st.synthetic_asset, amount: a, recipient: sender@ }],
            None => Seq::<CmdView>::empty(),
        });
        match liquidation.redeem_shares {
            Some(amount) => {
                let shares_asset = self.vaults.shares_asset(&vault_id);
                super::push_cmd(
                    &mut cmds,
                    Cmd::Vault(VaultCmd::Redeem { vault: vault_id, shares: shares_asset, amount, recipient: sender }),
                );
            },
            None => {},
        }
        assert(cmds_view(cmds@) =~= with_mint + match redeem_shares {
            Some(sh) => seq![
                CmdView::Redeem { vault: vault_id@, shares: st.shares_asset, amount: sh as u128, recipient: sender@ },
            ],
            None => Seq::<CmdView>::empty(),
        });
        Ok(cmds)
    }

    /// Converts credit of the sender's CDP into collateral.
    pub fn convert_credit(&self, vault_id: VaultId, sender: Sender, credit_amount: Credit) -> (r: Result<
        PositionResponse,
        Error,
    >)
        requires
            credit_amount != 0 && self.vaults.settings(vault_id@).registered ==> {
                &&& evaluation_ok(self.vaults, self.balance_sheet, vault_id@, sender@)
                &&& spec_evaluation(self.vaults, self.balance_sheet, vault_id@, sender@) matches Ok(ev) ==> spec_convert_credit(
                    ev.latest_vault(),
                    ev.latest_cdp(),
                    credit_amount as nat,
                    ev.rate,
                ) is Some
            },
        ensures
            response_view(r) == spec_convert_credit_request(
                self.vaults,
                self.balance_sheet,
                vault_id@,
                sender@,
                credit_amount,
            ),
    {
        if credit_amount == 0 {
            return Err(Error::CannotConvertZero);
        }
        if !self.vaults.is_registered(&vault_id) {
            return Err(Error::VaultNotRegistered);
        }
        let evaluation = match self.evaluation(&vault_id, &sender) {
            Ok(ev) => ev,
            Err(e) => {
                return Err(e);
            },
        };
        proof {
            let st = self.vaults.settings(vault_id@);
            lemma_rate_of(st.total_shares_issued, st.total_deposits_value);
        }
        let (updated_vault, updated_cdp) = match convert_credit(
            evaluation.latest_vault(),
            evaluation.latest_cdp(),
            credit_amount,
            evaluation.redemption_rate,
        ) {
            Ok(c) => c,
            Err(e) => {
                return Err(Error::ConvertCredit(e));
            },
        };
        let mut cmds: Vec<Cmd> = Vec::new();
        assert(cmds_view(cmds@) =~= Seq::<CmdView>::empty());
        push_update_vault_position_cmds(&vault_id, &evaluation.prev_vault, &updated_vault, &mut cmds);
        push_update_cdp_cmds(&vault_id, &sender, &evaluation.prev_cdp, &updated_cdp, &mut cmds);
        Ok(PositionResponse { cmds, cdp: updated_cdp })
    }

    /// Redeems synthetics for the vault's reserves: the shares worth them go to the recipient and the synthetics
    /// are burnt.
    pub fn redeem_synthetic(
        &self,
        vault_id: VaultId,
        sender: Sender,
        synthetic_asset: Synthetic,
        synthetic_amount: SyntheticAmount,
        recipient: Recipient,
    ) -> (r: Result<Vec<Cmd>, Error>)
        requires
            ({
                let s = self.vaults.settings(vault_id@);
                s.registered && synthetic_amount != 0 && synthetic_asset@ == s.synthetic_asset && !proxy_refuses(
                    s.redeem_proxy,
                    sender@,
                ) ==> evaluation_ok(self.vaults, self.balance_sheet, vault_id@, sender@)
            }),
        ensures
            result_view(r) == spec_redeem_synthetic(
                self.vaults,
                self.balance_sheet,
                vault_id@,
                sender@,
                synthetic_asset@,
                synthetic_amount,
                recipient@,
            ),
    {
        if synthetic_amount == 0 {
            return Err(Error::CannotRedeemZero);
        }
        if !self.vaults.is_registered(&vault_id) {
            return Err(Error::VaultNotRegistered);
        }
        if !synthetic_asset.same_as(&self.vaults.synthetic_asset(&vault_id)) {
            return Err(Error::InvalidSyntheticAsset);
        }
        if refused_by(self.vaults.redeem_proxy(&vault_id), &sender) {
            return Err(Error::Unauthorized(UnauthorizedError));
        }
        let evaluation = match self.evaluation(&vault_id, &sender) {
            Ok(ev) => ev,
            Err(e) => {
                return Err(e);
            },
        };
        proof {
            let st = self.vaults.settings(vault_id@);
            lemma_rate_of(st.total_shares_issued, st.total_deposits_value);
        }
        let ghost ev = evaluation@;
        let (updated_vault, shares_amount) = match redeem_reserves(
            evaluation.latest_vault(),
            synthetic_amount,
            evaluation.redemption_rate,
        ) {
            Ok(x) => x,
            Err(e) => {
                assert(spec_redeem(ev.latest_vault(), synthetic_amount as nat, ev.rate) == Err::<
                    (VaultView, nat),
                    RedeemReservesError,
                >(e));
                return Err(Error::Redeem(e));
            },
        };
        assert(spec_redeem(ev.latest_vault(), synthetic_amount as nat, ev.rate) == Ok::<
            (VaultView, nat),
            RedeemReservesError,
        >((updated_vault@, shares_amount.0 as nat)));
        let mut cmds: Vec<Cmd> = Vec::new();
        assert(cmds_view(cmds@) =~= Seq::<CmdView>::empty());
        push_update_vault_position_cmds(&vault_id, &evaluation.prev_vault, &updated_vault, &mut cmds);
        let ghost after_vault = cmds_view(cmds@);
        match &evaluation.updated {
            Some((_, updated_cdp)) => {
                push_update_cdp_cmds(&vault_id, &recipient, &evaluation.prev_cdp, updated_cdp, &mut cmds);
            },
            None => {},
        }
        assert(cmds_view(cmds@) =~= after_vault + updated_cdp_cmds(ev, vault_id@, recipient@));
        let ghost before_redeem = cmds_view(cmds@);
        let shares_asset = self.vaults.shares_asset(&vault_id);
        let ghost tail = seq![
            CmdView::Redeem { vault: vault_id@, shares: shares_asset@, amount: shares_amount.0, recipient: recipient@ },
            CmdView::Burn { synthetic: synthetic_asset@, amount: synthetic_amount },
        ];
        super::push_cmd(
            &mut cmds,
            Cmd::Vault(VaultCmd::Redeem { vault: vault_id, shares: shares_asset, amount: shares_amount, recipient }),
        );
        super::push_cmd(&mut cmds, Cmd::Mint(MintCmd::Burn { synthetic: synthetic_asset, amount: synthetic_amount }));
        assert(cmds_view(cmds@) =~= before_redeem + tail);
        Ok(cmds)
    }

    /// Mints synthetics by depositing into the vault on behalf of the recipient, whose callback mints them.
    pub fn mint_synthetic(
        &self,
        vault: VaultId,
        sender: Sender,
        deposit_asset: Asset,
        deposit_amount: DepositAmount,
        recipient: Recipient,
    ) -> (r: Result<Vec<Cmd>, Error>)
        requires
            ({
                let s = self.vaults.settings(vault@);
                s.registered && s.deposits_enabled && deposit_amount.0 != 0 && !proxy_refuses(s.mint_proxy, sender@)
                    ==> s.found && (
                deposit_asset@ == s.deposit_asset ==> evaluation_ok(self.vaults, self.balance_sheet, vault@, recipient@))
            }),
        ensures
            result_view(r) == spec_mint_synthetic(
                self.vaults,
                self.balance_sheet,
                vault@,
                sender@,
                deposit_asset@,
                deposit_amount.0,
                recipient@,
            ),
    {
        if deposit_amount.0 == 0 {
            return Err(Error::CannotMintZero);
        }
        if !self.vaults.is_registered(&vault) {
            return Err(Error::VaultNotRegistered);
        }
        if !self.vaults.deposits_enabled(&vault) {
            return Err(Error::DepositsDisabled);
        }
        if refused_by(self.vaults.mint_proxy(&vault), &sender) {
            return Err(Error::Unauthorized(UnauthorizedError));
        }
        if !deposit_asset.same_as(&self.vaults.deposit_asset(&vault)) {
            return Err(Error::InvalidDepositAsset);
        }
        let response = match self.evaluate(vault.clone(), recipient.clone()) {
            Ok(p) => p,
            Err(e) => {
                return Err(e);
            },
        };
        let mut cmds = response.cmds;
        super::push_cmd(
            &mut cmds,
            Cmd::Vault(
                VaultCmd::Deposit {
                    vault,
                    asset: deposit_asset,
                    amount: deposit_amount,
                    callback_recipient: recipient,
                    callback_reason: VaultDepositReason::Mint,
                },
            ),
        );
        Ok(cmds)
    }

    /// Applies a deposit that a vault made on the hub's behalf, once the vault has issued shares for it.
    pub fn vault_deposit_callback(
        &self,
        vault_id: VaultId,
        recipient: Recipient,
        reason: VaultDepositReason,
        issued_shares: SharesAmount,
        deposit_value: DepositValue,
    ) -> (r: Result<Vec<Cmd>, Error>)
        requires
            vault_deposit_callback_ok(
                self.vaults,
                self.balance_sheet,
                vault_id@,
                recipient@,
                reason,
                issued_shares.0 as nat,
                deposit_value.0 as nat,
            ),
        ensures
            result_view(r) == Ok::<Seq<CmdView>, Error>(
                spec_vault_deposit_callback(
                    self.vaults,
                    self.balance_sheet,
                    vault_id@,
                    recipient@,
                    reason,
                    issued_shares.0 as nat,
                    deposit_value.0 as nat,
                ),
            ),
    {
        let mut cmds: Vec<Cmd> = Vec::new();
        assert(cmds_view(cmds@) =~= Seq::<CmdView>::empty());
        let current_vault = self.current_vault_position(&vault_id);
        match reason {
            VaultDepositReason::Deposit => {
                let current_cdp = self.current_cdp(&vault_id, &recipient);
                let (updated_vault, updated_cdp) = deposit_collateral(
                    current_vault.clone(),
                    current_cdp.clone(),
                    deposit_value.0,
                    issued_shares,
                );
                push_update_vault_position_cmds(&vault_id, &current_vault, &updated_vault, &mut cmds);
                push_update_cdp_cmds(&vault_id, &recipient, &current_cdp, &updated_cdp, &mut cmds);
            },
            VaultDepositReason::RepayUnderlying => {
                let current_cdp = self.current_cdp(&vault_id, &recipient);
                let updated_vault = add_vault_reserves(current_vault.clone(), deposit_value.0, issued_shares);
                let updated_cdp = repay(current_cdp.clone(), deposit_value.0);
                push_update_vault_position_cmds(&vault_id, &current_vault, &updated_vault, &mut cmds);
                push_update_cdp_cmds(&vault_id, &recipient, &current_cdp, &updated_cdp, &mut cmds);
            },
            VaultDepositReason::Mint => {
                let updated_vault = add_vault_reserves(current_vault.clone(), deposit_value.0, issued_shares);
                push_update_vault_position_cmds(&vault_id, &current_vault, &updated_vault, &mut cmds);
                let ghost before_mint = cmds_view(cmds@);
                let synthetic = self.vaults.synthetic_asset(&vault_id);
                let ghost minted = CmdView::Mint { synthetic: synthetic@, amount: deposit_value.0, recipient: recipient@ };
                super::push_cmd(&mut cmds, Cmd::Mint(MintCmd::Mint { synthetic, amount: deposit_value.0, recipient }));
                assert(cmds_view(cmds@) =~= before_mint + seq![minted]);
            },
        }
        Ok(cmds)
    }

    /// Sends the vault's unclaimed treasury shares to the treasury, which must be the sender.
    pub fn claim_treasury_shares(&self, vault_id: VaultId, sender: Sender) -> (r: Result<Vec<Cmd>, Error>)
        requires
            self.vaults.settings(vault_id@).registered && self.balance_sheet.spec_treasury() == Some(sender@)
                ==> evaluation_ok(self.vaults, self.balance_sheet, vault_id@, sender@),
        ensures
            result_view(r) == spec_claim_treasury_shares(self.vaults, self.balance_sheet, vault_id@, sender@),
    {
        if !self.vaults.is_registered(&vault_id) {
            return Err(Error::VaultNotRegistered);
        }
        let treasury = match self.balance_sheet.treasury() {
            Some(t) => t,
            None => {
                return Err(Error::NoTreasurySet);
            },
        };
        if !sender.same_as(&treasury) {
            return Err(Error::Unauthorized(UnauthorizedError));
        }
        let evaluation = match self.evaluation(&vault_id, &sender) {
            Ok(ev) => ev,
            Err(e) => {
                return Err(e);
            },
        };
        let ghost ev = evaluation@;
        let (updated_vault, treasury_shares) = match super::positions::claim_treasury_shares(evaluation.latest_vault()) {
            Ok(x) => x,
            Err(e) => {
                return Err(Error::Claim(e));
            },
        };
        let mut cmds: Vec<Cmd> = Vec::new();
        assert(cmds_view(cmds@) =~= Seq::<CmdView>::empty());
        push_update_vault_position_cmds(&vault_id, &evaluation.prev_vault, &updated_vault, &mut cmds);
        let ghost after_vault = cmds_view(cmds@);
        match &evaluation.updated {
            Some((_, updated_cdp)) => {
                push_update_cdp_cmds(&vault_id, &sender, &evaluation.prev_cdp, updated_cdp, &mut cmds);
            },
            None => {},
        }
        assert(cmds_view(cmds@) =~= after_vault + updated_cdp_cmds(ev, vault_id@, sender@));
        let ghost before_send = cmds_view(cmds@);
        let shares_asset = self.vaults.shares_asset(&vault_id);
        let ghost sent = CmdView::SendShares { shares: shares_asset@, amount: treasury_shares.0, recipient: treasury@ };
        super::push_cmd(
            &mut cmds,
            Cmd::BalanceSheet(BalanceSheetCmd::SendShares { shares: shares_asset, amount: treasury_shares, recipient: treasury }),
        );
        assert(cmds_view(cmds@) =~= before_send + seq![sent]);
        Ok(cmds)
    }

    /// Sends the vault's unclaimed AMO shares to the AMO.
    pub fn claim_amo_shares(&self, vault_id: VaultId, sender: Sender) -> (r: Result<Vec<Cmd>, Error>)
        requires
            self.vaults.settings(vault_id@).registered && self.vaults.settings(vault_id@).amo == Some(sender@)
                ==> evaluation_ok(self.vaults, self.balance_sheet, vault_id@, sender@),
        ensures
            result_view(r) == spec_claim_amo_shares(self.vaults, self.balance_sheet, vault_id@, sender@),
    {
        if !self.vaults.is_registered(&vault_id) {
            return Err(Error::VaultNotRegistered);
        }
        let amo = match self.vaults.amo(&vault_id) {
            Some(a) => a,
            None => {
                return Err(Error::NoAmoSet);
            },
        };
        if !sender.same_as(&amo) {
            return Err(Error::Unauthorized(UnauthorizedError));
        }
        let evaluation = match self.evaluation(&vault_id, &sender) {
            Ok(ev) => ev,
            Err(e) => {
                return Err(e);
            },
        };
        let ghost ev = evaluation@;
        let (updated_vault, amo_shares) = match super::positions::claim_amo_shares(evaluation.latest_vault()) {
            Ok(x) => x,
            Err(e) => {
                return Err(Error::Claim(e));
            },
        };
        let mut cmds: Vec<Cmd> = Vec::new();
        assert(cmds_view(cmds@) =~= Seq::<CmdView>::empty());
        push_update_vault_position_cmds(&vault_id, &evaluation.prev_vault, &updated_vault, &mut cmds);
        let ghost after_vault = cmds_view(cmds@);
        match &evaluation.updated {
            Some((_, updated_cdp)) => {
                push_update_cdp_cmds(&vault_id, &sender, &evaluation.prev_cdp, updated_cdp, &mut cmds);
            },
            None => {},
        }
        assert(cmds_view(cmds@) =~= after_vault + updated_cdp_cmds(ev, vault_id@, sender@));
        let ghost before_send = cmds_view(cmds@);
        let shares_asset = self.vaults.shares_asset(&vault_id);
        let ghost sent = CmdView::SendShares { shares: shares_asset@, amount: amo_shares.0, recipient: amo@ };
        super::push_cmd(
            &mut cmds,
            Cmd::BalanceSheet(BalanceSheetCmd::SendShares { shares: shares_asset, amount: amo_shares, recipient: amo }),
        );
        assert(cmds_view(cmds@) =~= before_send + seq![sent]);
        Ok(cmds)
    }
}

/// Without a fee oracle, an advance charges the vault's configured fixed fee: when it takes on debt, the fee minted
/// to the fee recipient is the fixed fee's rate applied to the debt taken on (what the advance exceeds the CDP's
/// credit by).
pub proof fn law_advance_charges_fixed_fee<V: Vaults, B: BalanceSheet, O: AdvanceFeeOracle>(
    vaults: &V,
    sheet: &B,
    oracle: &O,
    id: Seq<char>,
    sender: Seq<char>,
    amount: u128,
    recipient: Seq<char>,
)
    requires
        vaults.settings(id).advance_fee_oracle is None,
    ensures
        ({
            let s = vaults.settings(id);
            match (
                spec_advance_request(vaults, sheet, oracle, id, sender, amount, recipient),
                spec_evaluation(vaults, sheet, id, recipient),
                s.fixed_advance_fee,
                s.advance_fee_recipient,
            ) {
                (Ok(cmds), Ok(ev), Some(f), Some(fr)) => amount > ev.latest_cdp().credit ==> cmds.last()
                    == CmdView::Mint {
                    synthetic: s.synthetic_asset,
                    amount: (f.spec_raw_rate() * ((amount - ev.latest_cdp().credit) as nat) / crate::num::w128()) as u128,
                    recipient: fr,
                },
                _ => true,
            }
        }),
{
}

/// A withdrawal is refused for lack of collateral exactly when what remains would not cover the debt within the
/// vault's configured max LTV (the default when none is set), and otherwise leaves the CDP with the amount less
/// collateral.
pub proof fn law_withdraw_respects_max_ltv<V: Vaults, B: BalanceSheet>(
    vaults: &V,
    sheet: &B,
    id: Seq<char>,
    sender: Seq<char>,
    amount: u128,
)
    ensures
        ({
            let s = vaults.settings(id);
            match spec_evaluation(vaults, sheet, id, sender) {
                Ok(ev) => s.registered && amount > 0 ==> {
                    let c = ev.latest_cdp();
                    let left = (c.collateral - amount) as nat;
                    let max_ltv = match s.max_ltv {
                        Some(m) => m.spec_raw_rate(),
                        None => bps_raw(5_000),
                    };
                    let within = amount <= c.collateral && (c.debt == 0 || (left >= c.debt && c.debt
                        * crate::num::w128() / left <= max_ltv));
                    let r = spec_withdraw_collateral(vaults, sheet, id, sender, amount);
                    &&& (r == Err::<(Seq<CmdView>, CdpView), Error>(
                        Error::Withdraw(WithdrawCollateralError::NotEnoughCollateral),
                    )) <==> !within
                    &&& r matches Ok((_, nc)) ==> nc == CdpView { collateral: left, ..c }
                },
                Err(_) => true,
            }
        }),
{
}

} // verus!
