use amulet::hub::operations::hub;
use amulet::hub::positions::{Cdp, SumPaymentRatio};
use amulet::hub::rates::{AdvanceFee, AmoAllocation, CollateralYieldFee, MaxLtv, ReserveYieldFee};
use amulet::hub::{
    Account, AccountSheet, AdvanceFeeOracle, Amo, BalanceSheet, BalanceSheetCmd, Cmd, Oracle, PositionResponse,
    Proxy, SyntheticMint, Treasury, VaultCmd, VaultDepositReason, VaultId, VaultSettings, VaultSheet, Vaults,
};
use amulet::mint::Synthetic;
use amulet::num::FixedU256;
use amulet::vault::{
    DepositAmount, DepositValue, RedemptionRate, SharesAmount, TotalDepositsValue, TotalSharesIssued,
};
use amulet::{Asset, Decimals, IdentifierView, Recipient};

/// A sum payment ratio by its raw words, so that two can be compared.
type RawSpr = [u64; 4];

fn raw(s: SumPaymentRatio) -> RawSpr {
    s.into_raw().words
}

#[derive(Debug, Default, PartialEq, Eq)]
struct Balances {
    collateral_pool_shares: Option<u128>,
    collateral_pool_balance: Option<u128>,
    reserve_pool_shares: Option<u128>,
    reserve_pool_balance: Option<u128>,
    treasury_shares: Option<u128>,
    amo_shares: Option<u128>,
    overall_spr: Option<RawSpr>,
    account_collateral: Option<u128>,
    account_debt: Option<u128>,
    account_credit: Option<u128>,
    account_spr: Option<RawSpr>,
}

#[derive(Default)]
struct Context {
    enable_advance_fee: bool,
    enable_advance_fee_oracle: bool,
    enable_treasury: bool,
    enable_amo: bool,
    total_shares_issued: u128,
    total_deposit_value: u128,
    balances: Balances,
    sprs: Vec<SumPaymentRatio>,
}

fn user() -> Recipient {
    "user".to_owned().into()
}

fn synthetic_asset() -> Asset {
    "amASSET".to_owned().into()
}

fn deposit_asset() -> Asset {
    "ASSET".to_owned().into()
}

fn shares_asset() -> Asset {
    "shares".to_owned().into()
}

fn vault_id() -> VaultId {
    "vault".to_owned().into()
}

fn advance_fee_recipient() -> Recipient {
    "advance_fee_recipient".to_owned().into()
}

fn advance_fee_oracle() -> Oracle {
    "advance_fee_oracle".to_owned().into()
}

fn treasury() -> Treasury {
    "treasury".to_owned().into()
}

fn amo() -> Amo {
    "amo".to_owned().into()
}

const INIT_DEPOSIT_AMOUNT: u128 = 1_000_000;
const INIT_SHARES_ISSUED: u128 = 1_000_000_000_000_000_000;

/// `left` is within `n` of `right`.
fn assert_wn(n: u128, left: u128, right: u128) {
    assert!(left + n >= right && left <= right + n, "{} is not within {} of {}", left, n, right);
}

fn spr(numer: u128, denom: u128) -> RawSpr {
    FixedU256::from_u128(numer).checked_div(FixedU256::from_u128(denom)).unwrap().into_raw().words
}

fn with_init_deposit() -> Context {
    Context {
        total_shares_issued: INIT_SHARES_ISSUED,
        total_deposit_value: INIT_DEPOSIT_AMOUNT,
        balances: Balances {
            collateral_pool_shares: Some(INIT_SHARES_ISSUED),
            collateral_pool_balance: Some(INIT_DEPOSIT_AMOUNT),
            account_collateral: Some(INIT_DEPOSIT_AMOUNT),
            ..Default::default()
        },
        ..Default::default()
    }
}

impl Context {
    fn spr_of(&self, r: RawSpr) -> SumPaymentRatio {
        *self.sprs.iter().find(|s| raw(**s) == r).unwrap()
    }

    fn handle_balance_sheet_cmd(&mut self, cmd: BalanceSheetCmd) {
        match cmd {
            BalanceSheetCmd::SetCollateralShares { vault, shares } => {
                assert!(vault == vault_id());
                self.balances.collateral_pool_shares = Some(shares.0);
            }
            BalanceSheetCmd::SetCollateralBalance { vault, balance } => {
                assert!(vault == vault_id());
                self.balances.collateral_pool_balance = Some(balance);
            }
            BalanceSheetCmd::SetReserveShares { vault, shares } => {
                assert!(vault == vault_id());
                self.balances.reserve_pool_shares = Some(shares.0);
            }
            BalanceSheetCmd::SetReserveBalance { vault, balance } => {
                assert!(vault == vault_id());
                self.balances.reserve_pool_balance = Some(balance);
            }
            BalanceSheetCmd::SetTreasuryShares { vault, shares } => {
                assert!(vault == vault_id());
                self.balances.treasury_shares = Some(shares.0);
            }
            BalanceSheetCmd::SetAmoShares { vault, shares } => {
                assert!(vault == vault_id());
                self.balances.amo_shares = Some(shares.0);
            }
            BalanceSheetCmd::SetOverallSumPaymentRatio { vault, spr } => {
                assert!(vault == vault_id());
                self.sprs.push(spr);
                self.balances.overall_spr = Some(raw(spr));
            }
            BalanceSheetCmd::SetAccountCollateral { vault, account, collateral } => {
                assert!(vault == vault_id() && account == user());
                self.balances.account_collateral = Some(collateral);
            }
            BalanceSheetCmd::SetAccountDebt { vault, account, debt } => {
                assert!(vault == vault_id() && account == user());
                self.balances.account_debt = Some(debt);
            }
            BalanceSheetCmd::SetAccountCredit { vault, account, credit } => {
                assert!(vault == vault_id() && account == user());
                self.balances.account_credit = Some(credit);
            }
            BalanceSheetCmd::SetAccountSumPaymentRatio { vault, account, spr } => {
                assert!(vault == vault_id() && account == user());
                self.sprs.push(spr);
                self.balances.account_spr = Some(raw(spr));
            }
            _ => {}
        }
    }

    fn handle_cmd(&mut self, cmd: Cmd) {
        if let Cmd::BalanceSheet(cmd) = cmd {
            self.handle_balance_sheet_cmd(cmd)
        }
    }
}

impl BalanceSheet for Context {
    fn spec_treasury(&self) -> Option<IdentifierView> {
        unreachable!()
    }

    fn vault_sheet(&self, _: IdentifierView) -> VaultSheet {
        unreachable!()
    }

    fn account_sheet(&self, _: IdentifierView, _: IdentifierView) -> AccountSheet {
        unreachable!()
    }

    fn treasury(&self) -> Option<Treasury> {
        if self.enable_treasury { Some(treasury()) } else { None }
    }

    fn collateral_shares(&self, vault: &VaultId) -> Option<SharesAmount> {
        assert!(vault == &vault_id());
        self.balances.collateral_pool_shares.map(SharesAmount)
    }

    fn collateral_balance(&self, vault: &VaultId) -> Option<u128> {
        assert!(vault == &vault_id());
        self.balances.collateral_pool_balance
    }

    fn reserve_shares(&self, vault: &VaultId) -> Option<SharesAmount> {
        assert!(vault == &vault_id());
        self.balances.reserve_pool_shares.map(SharesAmount)
    }

    fn reserve_balance(&self, vault: &VaultId) -> Option<u128> {
        assert!(vault == &vault_id());
        self.balances.reserve_pool_balance
    }

    fn treasury_shares(&self, vault: &VaultId) -> Option<SharesAmount> {
        assert!(vault == &vault_id());
        self.balances.treasury_shares.map(SharesAmount)
    }

    fn amo_shares(&self, vault: &VaultId) -> Option<SharesAmount> {
        assert!(vault == &vault_id());
        self.balances.amo_shares.map(SharesAmount)
    }

    fn overall_sum_payment_ratio(&self, vault: &VaultId) -> Option<SumPaymentRatio> {
        assert!(vault == &vault_id());
        self.balances.overall_spr.map(|r| self.spr_of(r))
    }

    fn account_collateral(&self, vault: &VaultId, account: &Account) -> Option<u128> {
        assert!(vault == &vault_id() && account == &user());
        self.balances.account_collateral
    }

    fn account_debt(&self, vault: &VaultId, account: &Account) -> Option<u128> {
        assert!(vault == &vault_id() && account == &user());
        self.balances.account_debt
    }

    fn account_credit(&self, vault: &VaultId, account: &Account) -> Option<u128> {
        assert!(vault == &vault_id() && account == &user());
        self.balances.account_credit
    }

    fn account_sum_payment_ratio(&self, vault: &VaultId, account: &Account) -> Option<SumPaymentRatio> {
        assert!(vault == &vault_id() && account == &user());
        self.balances.account_spr.map(|r| self.spr_of(r))
    }
}

impl AdvanceFeeOracle for Context {
    fn spec_advance_fee(&self, _: IdentifierView, _: IdentifierView) -> Option<AdvanceFee> {
        unreachable!()
    }

    fn advance_fee(&self, oracle: &Oracle, recipient: &Recipient) -> Option<AdvanceFee> {
        assert!(oracle == &advance_fee_oracle());
        assert!(recipient == &user());
        None
    }
}

impl SyntheticMint for Context {
    fn spec_synthetic_decimals(&self, _: IdentifierView) -> Option<Decimals> {
        unreachable!()
    }

    fn syntethic_decimals(&self, synthetic: &Synthetic) -> Option<Decimals> {
        if synthetic == &synthetic_asset() { Some(6) } else { None }
    }
}

impl Vaults for Context {
    fn settings(&self, _: IdentifierView) -> VaultSettings {
        unreachable!()
    }

    fn underlying_asset_decimals(&self, vault: &VaultId) -> Option<Decimals> {
        if vault == &vault_id() { Some(6) } else { None }
    }

    fn is_registered(&self, vault: &VaultId) -> bool {
        vault == &vault_id()
    }

    fn deposits_enabled(&self, vault: &VaultId) -> bool {
        vault == &vault_id()
    }

    fn advance_enabled(&self, vault: &VaultId) -> bool {
        vault == &vault_id()
    }

    fn max_ltv(&self, _vault: &VaultId) -> Option<MaxLtv> {
        None
    }

    fn collateral_yield_fee(&self, _vault: &VaultId) -> Option<CollateralYieldFee> {
        None
    }

    fn reserve_yield_fee(&self, _vault: &VaultId) -> Option<ReserveYieldFee> {
        None
    }

    fn fixed_advance_fee(&self, _vault: &VaultId) -> Option<AdvanceFee> {
        None
    }

    fn advance_fee_recipient(&self, _vault: &VaultId) -> Option<Recipient> {
        if self.enable_advance_fee { Some(advance_fee_recipient()) } else { None }
    }

    fn advance_fee_oracle(&self, _vault: &VaultId) -> Option<Oracle> {
        if self.enable_advance_fee_oracle { Some(advance_fee_oracle()) } else { None }
    }

    fn amo(&self, _vault: &VaultId) -> Option<Amo> {
        if self.enable_amo { Some(amo()) } else { None }
    }

    fn amo_allocation(&self, _vault: &VaultId) -> Option<AmoAllocation> {
        None
    }

    fn deposit_proxy(&self, _vault: &VaultId) -> Option<Proxy> {
        None
    }

    fn advance_proxy(&self, _vault: &VaultId) -> Option<Proxy> {
        None
    }

    fn redeem_proxy(&self, _vault: &VaultId) -> Option<Proxy> {
        None
    }

    fn mint_proxy(&self, _vault: &VaultId) -> Option<Proxy> {
        None
    }

    fn deposit_asset(&self, vault: &VaultId) -> Asset {
        assert!(vault == &vault_id());
        deposit_asset()
    }

    fn shares_asset(&self, vault: &VaultId) -> Asset {
        assert!(vault == &vault_id());
        shares_asset()
    }

    fn synthetic_asset(&self, vault: &VaultId) -> Synthetic {
        assert!(vault == &vault_id());
        synthetic_asset()
    }

    fn total_shares_issued(&self, vault: &VaultId) -> TotalSharesIssued {
        assert!(vault == &vault_id());
        TotalSharesIssued(self.total_shares_issued)
    }

    fn total_deposits_value(&self, vault: &VaultId) -> TotalDepositsValue {
        assert!(vault == &vault_id());
        TotalDepositsValue(self.total_deposit_value)
    }
}

#[test]
fn hub_initial_deposit() {
    let mut ctx = Context::default();

    let cmds = hub(&ctx, &ctx, &ctx)
        .deposit(vault_id(), user(), deposit_asset(), DepositAmount(INIT_DEPOSIT_AMOUNT), user())
        .unwrap();

    assert_eq!(cmds.len(), 1);

    let Cmd::Vault(VaultCmd::Deposit { vault, asset, amount, callback_recipient, callback_reason }) =
        cmds.into_iter().next().unwrap()
    else {
        unreachable!()
    };

    assert_eq!(vault, vault_id());
    assert_eq!(asset, deposit_asset());
    assert_eq!(amount.0, INIT_DEPOSIT_AMOUNT);
    assert_eq!(callback_recipient, user());
    assert_eq!(callback_reason, VaultDepositReason::Deposit);

    let cmds = hub(&ctx, &ctx, &ctx)
        .vault_deposit_callback(
            vault_id(),
            callback_recipient,
            callback_reason,
            SharesAmount(INIT_SHARES_ISSUED),
            DepositValue(INIT_DEPOSIT_AMOUNT),
        )
        .unwrap();

    for cmd in cmds {
        ctx.handle_cmd(cmd);
    }

    assert_eq!(
        ctx.balances,
        Balances {
            collateral_pool_shares: Some(INIT_SHARES_ISSUED),
            collateral_pool_balance: Some(INIT_DEPOSIT_AMOUNT),
            account_collateral: Some(INIT_DEPOSIT_AMOUNT),
            ..Default::default()
        }
    )
}

#[test]
fn evaluate() {
    const YIELD_EARNED: u128 = 100_000;

    let mut ctx = with_init_deposit();

    ctx.total_deposit_value += YIELD_EARNED;

    let PositionResponse { cmds, cdp } = hub(&ctx, &ctx, &ctx).evaluate(vault_id(), user()).unwrap();

    for cmd in cmds {
        ctx.handle_cmd(cmd);
    }

    let treasury_payment = YIELD_EARNED / 10;

    let debt_payment = YIELD_EARNED - treasury_payment;

    let redemption_rate = RedemptionRate::new(
        TotalSharesIssued(ctx.total_shares_issued),
        TotalDepositsValue(ctx.total_deposit_value),
    )
    .unwrap();

    let expected_spr = spr(debt_payment, INIT_DEPOSIT_AMOUNT);

    assert_eq!(cdp.collateral, INIT_DEPOSIT_AMOUNT);
    assert_wn(1, cdp.credit, debt_payment);
    assert_eq!(cdp.debt, 0);
    assert_eq!(raw(cdp.spr), expected_spr);

    let balances = &ctx.balances;

    assert_eq!(balances.collateral_pool_balance, Some(INIT_DEPOSIT_AMOUNT));
    assert_wn(1, balances.reserve_pool_balance.unwrap(), debt_payment);
    assert_wn(
        1,
        balances.collateral_pool_shares.unwrap(),
        redemption_rate.deposits_to_shares(DepositValue(INIT_DEPOSIT_AMOUNT)).0,
    );
    assert_wn(
        1,
        balances.reserve_pool_shares.unwrap(),
        redemption_rate.deposits_to_shares(DepositValue(debt_payment)).0,
    );
    assert_wn(
        1,
        balances.treasury_shares.unwrap(),
        redemption_rate.deposits_to_shares(DepositValue(treasury_payment)).0,
    );
    assert_eq!(
        balances.collateral_pool_shares.unwrap()
            + balances.reserve_pool_shares.unwrap()
            + balances.treasury_shares.unwrap(),
        INIT_SHARES_ISSUED
    );
    assert_eq!(balances.overall_spr.unwrap(), spr(debt_payment, INIT_DEPOSIT_AMOUNT));
    assert_eq!(balances.account_collateral.unwrap(), INIT_DEPOSIT_AMOUNT);
    assert_wn(1, balances.account_credit.unwrap(), debt_payment);
    assert_eq!(balances.account_spr.unwrap(), spr(debt_payment, INIT_DEPOSIT_AMOUNT));
}
