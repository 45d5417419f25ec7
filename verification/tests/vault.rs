use std::collections::{BTreeMap, HashMap};

use amulet::num::FixedU256;
use amulet::vault::{
    vault, BatchId, ClaimAmount, Cmd, DepositAmount, DepositResponse, DepositValue, Error, Hint, MintCmd, Now,
    SharesAmount, SharesMint, Strategy, StrategyCmd, TotalDepositsValue, TotalSharesIssued, UnbondEpoch,
    UnbondReadyStatus, UnbondingLog, UnbondingLogSet, VaultImpl, SHARES_DECIMAL_PLACES,
};
use amulet::vault::attrs::{cmd_attrs, AttrKey};
use amulet::vault::queries::{
    account_active_unbondings, all_active_unbondings, claimable, pending_unbonding, PendingUnbonding, UnbondingStatus,
};
use amulet::{Asset, Decimals, IdentifierView};

const BOB: &str = "bob";
const ALICE: &str = "alice";
const DEPOSIT_ASSET: &str = "deposit_asset";
const SHARES_ASSET: &str = "shares_asset";

// ---------------------------------------------------------------------------------------------
// Rendering values in the pretty printed form that the expected values are written in
// ---------------------------------------------------------------------------------------------

enum R {
    Atom(String),
    Named(String, Vec<(String, R)>),
    Wrap(String, Box<R>),
    List(Vec<R>),
}

fn pad(level: usize) -> String {
    "  ".repeat(level)
}

fn print(r: &R, level: usize) -> String {
    match r {
        R::Atom(s) => s.clone(),
        R::Wrap(name, inner) => format!("{}({})", name, print(inner, level)),
        R::Named(name, fields) => {
            if fields.is_empty() {
                return format!("{}()", name);
            }
            let mut out = format!("{}(\n", name);
            for (k, v) in fields {
                out.push_str(&format!("{}{}: {},\n", pad(level + 1), k, print(v, level + 1)));
            }
            out.push_str(&format!("{})", pad(level)));
            out
        }
        R::List(items) => {
            if items.is_empty() {
                return "[]".to_string();
            }
            let mut out = "[\n".to_string();
            for v in items {
                out.push_str(&format!("{}{},\n", pad(level + 1), print(v, level + 1)));
            }
            out.push_str(&format!("{}]", pad(level)));
            out
        }
    }
}

fn num(n: u128) -> R {
    R::Atom(n.to_string())
}

/// A newtype around a number, printed in brackets.
fn amount(n: u128) -> R {
    wrap("", num(n))
}

fn text(s: &str) -> R {
    R::Atom(format!("{:?}", s))
}

fn named(name: &str, fields: Vec<(&str, R)>) -> R {
    R::Named(name.to_string(), fields.into_iter().map(|(k, v)| (k.to_string(), v)).collect())
}

fn wrap(name: &str, inner: R) -> R {
    R::Wrap(name.to_string(), Box::new(inner))
}

fn epoch(e: &UnbondEpoch) -> R {
    named("", vec![("start", num(e.start as u128)), ("end", num(e.end as u128))])
}

fn strategy_cmd(c: &StrategyCmd) -> R {
    match c {
        StrategyCmd::Deposit { amount: a } => named("Deposit", vec![("amount", amount(a.0))]),
        StrategyCmd::Unbond { value } => named("Unbond", vec![("value", amount(value.0))]),
        StrategyCmd::SendClaimed { amount: a, recipient } => {
            named("SendClaimed", vec![("amount", amount(a.0)), ("recipient", text(recipient.as_str()))])
        }
    }
}

fn unbonding_log_cmd(c: &UnbondingLogSet) -> R {
    match c {
        UnbondingLogSet::LastCommittedBatchId(id) => wrap("LastCommittedBatchId", num(*id as u128)),
        UnbondingLogSet::BatchTotalUnbondValue { batch, value } => {
            named("BatchTotalUnbondValue", vec![("batch", num(*batch as u128)), ("value", amount(value.0))])
        }
        UnbondingLogSet::BatchClaimableAmount { batch, amount: a } => {
            named("BatchClaimableAmount", vec![("batch", num(*batch as u128)), ("amount", amount(a.0))])
        }
        UnbondingLogSet::BatchHint { batch, hint } => {
            named("BatchHint", vec![("batch", num(*batch as u128)), ("hint", num(*hint as u128))])
        }
        UnbondingLogSet::BatchEpoch { batch, epoch: e } => {
            named("BatchEpoch", vec![("batch", num(*batch as u128)), ("epoch", epoch(e))])
        }
        UnbondingLogSet::FirstEnteredBatch { recipient, batch } => named(
            "FirstEnteredBatch",
            vec![("recipient", text(recipient.as_str())), ("batch", num(*batch as u128))],
        ),
        UnbondingLogSet::LastEnteredBatch { recipient, batch } => named(
            "LastEnteredBatch",
            vec![("recipient", text(recipient.as_str())), ("batch", num(*batch as u128))],
        ),
        UnbondingLogSet::NextEnteredBatch { recipient, previous, next } => named(
            "NextEnteredBatch",
            vec![
                ("recipient", text(recipient.as_str())),
                ("previous", num(*previous as u128)),
                ("next", num(*next as u128)),
            ],
        ),
        UnbondingLogSet::LastClaimedBatch { recipient, batch } => named(
            "LastClaimedBatch",
            vec![("recipient", text(recipient.as_str())), ("batch", num(*batch as u128))],
        ),
        UnbondingLogSet::UnbondedValueInBatch { recipient, batch, value } => named(
            "UnbondedValueInBatch",
            vec![("recipient", text(recipient.as_str())), ("batch", num(*batch as u128)), ("value", amount(value.0))],
        ),
    }
}

fn mint_cmd(c: &MintCmd) -> R {
    match c {
        MintCmd::Mint { amount: a, recipient } => {
            named("Mint", vec![("amount", amount(a.0)), ("recipient", text(recipient.as_str()))])
        }
        MintCmd::Burn { amount: a } => named("Burn", vec![("amount", amount(a.0))]),
    }
}

fn cmd(c: &Cmd) -> R {
    match c {
        Cmd::Mint(c) => wrap("Mint", mint_cmd(c)),
        Cmd::Strategy(c) => wrap("Strategy", strategy_cmd(c)),
        Cmd::UnbondingLog(c) => wrap("UnbondingLog", unbonding_log_cmd(c)),
    }
}

trait Render {
    fn render(&self) -> R;
}

impl<T: Render> Render for &T {
    fn render(&self) -> R {
        (*self).render()
    }
}

impl Render for Vec<Cmd> {
    fn render(&self) -> R {
        R::List(self.iter().map(cmd).collect())
    }
}

impl Render for Cmd {
    fn render(&self) -> R {
        cmd(self)
    }
}

impl Render for StrategyCmd {
    fn render(&self) -> R {
        strategy_cmd(self)
    }
}

impl Render for DepositResponse {
    fn render(&self) -> R {
        named(
            "",
            vec![
                ("cmds", self.cmds.render()),
                ("deposit_value", amount(self.deposit_value.0)),
                ("issued_shares", amount(self.issued_shares.0)),
                ("total_shares_issued", amount(self.total_shares_issued.0)),
                ("total_deposits_value", amount(self.total_deposits_value.0)),
            ],
        )
    }
}

/// The expected text without its first line break and its common indentation.
fn trim_indent(text: &str) -> String {
    let text = text.strip_prefix('\n').unwrap_or(text);
    let indent = text
        .lines()
        .filter(|l| !l.trim().is_empty())
        .map(|l| l.len() - l.trim_start().len())
        .min()
        .unwrap_or(0);
    text.split_inclusive('\n')
        .map(|l| if l.len() <= indent { l.trim_start_matches(' ') } else { &l[indent..] })
        .collect()
}

fn check(actual: impl Render, expected: &str) {
    let actual = print(&actual.render(), 0);
    let expected = trim_indent(expected);
    if actual != expected {
        let diff: Vec<String> = actual
            .lines()
            .zip(expected.lines())
            .enumerate()
            .filter(|(_, (a, e))| a != e)
            .map(|(i, (a, e))| format!("line {}: actual `{}`, expected `{}`", i, a.trim(), e.trim()))
            .collect();
        panic!("expected:\n{}\nactual:\n{}\ndifferences:\n{}", expected, actual, diff.join("\n"));
    }
}

fn check_err(actual: Error, expected: &str) {
    assert_eq!(actual.message(), trim_indent(expected));
}

// ---------------------------------------------------------------------------------------------
// The world the vault reads: the strategy, the unbonding log and the shares mint
// ---------------------------------------------------------------------------------------------

enum UnbondMode {
    Ready,
    Later,
}

struct WholeBatch {
    value: DepositValue,
    amount: ClaimAmount,
    epoch: Option<UnbondEpoch>,
}

impl Default for WholeBatch {
    fn default() -> Self {
        WholeBatch { value: DepositValue(0), amount: ClaimAmount(0), epoch: None }
    }
}

struct RecipientBatch {
    value: DepositValue,
    next: Option<BatchId>,
}

impl Default for RecipientBatch {
    fn default() -> Self {
        RecipientBatch { value: DepositValue(0), next: None }
    }
}

#[derive(Default)]
struct RecipientEntry {
    first_entered: Option<BatchId>,
    last_entered: Option<BatchId>,
    last_claimed: Option<BatchId>,
    batches: BTreeMap<BatchId, RecipientBatch>,
}

struct World {
    now: u64,
    total_deposits: u128,
    total_shares: u128,
    underlying_redemption_rate: FixedU256,
    unbond_mode: UnbondMode,
    unbonding_batches: BTreeMap<BatchId, WholeBatch>,
    recipient_batches: HashMap<String, RecipientEntry>,
    last_committed_batch_id: Option<BatchId>,
}

impl Default for World {
    fn default() -> Self {
        Self {
            now: 1,
            total_deposits: 0,
            total_shares: 0,
            underlying_redemption_rate: FixedU256::from_u128(1),
            unbond_mode: UnbondMode::Ready,
            unbonding_batches: BTreeMap::default(),
            recipient_batches: HashMap::default(),
            last_committed_batch_id: None,
        }
    }
}

impl World {
    fn vault(&self) -> VaultImpl<'_, World, World, World> {
        vault(self, self, self)
    }

    fn now(mut self, v: u64) -> Self {
        self.now = v;
        self
    }

    fn total_deposits(mut self, v: u128) -> Self {
        self.total_deposits = v;
        self
    }

    fn total_shares(mut self, v: u128) -> Self {
        self.total_shares = v;
        self
    }

    fn underlying_redemption_rate(mut self, numer: u128, denom: u128) -> Self {
        self.underlying_redemption_rate =
            FixedU256::from_u128(numer).checked_div(FixedU256::from_u128(denom)).unwrap();
        self
    }

    fn unbond_later(mut self) -> Self {
        self.unbond_mode = UnbondMode::Later;
        self
    }

    fn unbond_ready(mut self) -> Self {
        self.unbond_mode = UnbondMode::Ready;
        self
    }

    fn deposit_amount(&self, value: DepositValue) -> DepositAmount {
        let amount = FixedU256::from_u128(value.0).checked_div(self.underlying_redemption_rate).unwrap().floor();
        DepositAmount(amount)
    }

    fn handle_cmd(&mut self, cmd: Cmd) {
        match cmd {
            Cmd::Mint(c) => match c {
                MintCmd::Mint { amount, .. } => self.total_shares += amount.0,
                MintCmd::Burn { amount } => self.total_shares -= amount.0,
            },
            Cmd::Strategy(c) => match c {
                StrategyCmd::Deposit { amount } => self.total_deposits += amount.0,
                StrategyCmd::Unbond { value } => self.total_deposits -= self.deposit_amount(value).0,
                _ => {}
            },
            Cmd::UnbondingLog(c) => match c {
                UnbondingLogSet::LastCommittedBatchId(id) => self.last_committed_batch_id = Some(id),
                UnbondingLogSet::BatchTotalUnbondValue { batch, value } => {
                    self.unbonding_batches.entry(batch).or_default().value = value;
                }
                UnbondingLogSet::BatchClaimableAmount { batch, amount } => {
                    self.unbonding_batches.entry(batch).or_default().amount = amount;
                }
                UnbondingLogSet::BatchEpoch { batch, epoch } => {
                    self.unbonding_batches.entry(batch).or_default().epoch = Some(epoch);
                }
                UnbondingLogSet::FirstEnteredBatch { recipient, batch } => {
                    self.recipient_batches.entry(recipient.into_string()).or_default().first_entered = Some(batch);
                }
                UnbondingLogSet::LastEnteredBatch { recipient, batch } => {
                    self.recipient_batches.entry(recipient.into_string()).or_default().last_entered = Some(batch);
                }
                UnbondingLogSet::NextEnteredBatch { recipient, previous, next } => {
                    self.recipient_batches
                        .entry(recipient.into_string())
                        .or_default()
                        .batches
                        .get_mut(&previous)
                        .unwrap()
                        .next = Some(next);
                }
                UnbondingLogSet::LastClaimedBatch { recipient, batch } => {
                    self.recipient_batches.entry(recipient.into_string()).or_default().last_claimed = Some(batch)
                }
                UnbondingLogSet::UnbondedValueInBatch { recipient, batch, value } => {
                    let entry = self
                        .recipient_batches
                        .entry(recipient.into_string())
                        .or_default()
                        .batches
                        .entry(batch)
                        .or_default();
                    entry.value = DepositValue(value.0 + entry.value.0);
                }
                _ => {}
            },
        }
    }

    fn handle_cmds(mut self, cmds: Vec<Cmd>) -> Self {
        for cmd in cmds {
            self.handle_cmd(cmd);
        }
        self
    }
}

fn shares_amount(n: u128) -> u128 {
    n * 10u128.pow(SHARES_DECIMAL_PLACES)
}

impl Strategy for World {
    fn spec_now(&self) -> Now {
        unreachable!()
    }

    fn spec_deposit_asset(&self) -> IdentifierView {
        unreachable!()
    }

    fn spec_underlying_asset_decimals(&self) -> Decimals {
        unreachable!()
    }

    fn spec_total_deposits_value(&self) -> u128 {
        unreachable!()
    }

    fn spec_deposit_value(&self, _: u128) -> u128 {
        unreachable!()
    }

    fn spec_unbond(&self, _: u128) -> UnbondReadyStatus {
        unreachable!()
    }

    fn now(&self) -> Now {
        self.now
    }

    fn deposit_asset(&self) -> Asset {
        DEPOSIT_ASSET.into()
    }

    fn underlying_asset_decimals(&self) -> Decimals {
        6
    }

    fn total_deposits_value(&self) -> TotalDepositsValue {
        let DepositValue(total_deposit_value) = self.deposit_value(DepositAmount(self.total_deposits));
        TotalDepositsValue(total_deposit_value)
    }

    fn deposit_value(&self, amount: DepositAmount) -> DepositValue {
        let value =
            self.underlying_redemption_rate.checked_mul(FixedU256::from_u128(amount.0)).unwrap().floor();
        DepositValue(value)
    }

    fn unbond(&self, value: DepositValue) -> UnbondReadyStatus {
        match self.unbond_mode {
            UnbondMode::Ready => {
                let DepositAmount(amount) = self.deposit_amount(value);
                let epoch = UnbondEpoch { start: Strategy::now(self), end: Strategy::now(self) + 1 };
                UnbondReadyStatus::Ready { amount: ClaimAmount(amount), epoch }
            }
            UnbondMode::Later => UnbondReadyStatus::Later(Some(1)),
        }
    }
}

impl UnbondingLog for World {
    fn spec_last_committed_batch_id(&self) -> Option<BatchId> {
        unreachable!()
    }

    fn spec_batch_unbond_value(&self, _: BatchId) -> Option<u128> {
        unreachable!()
    }

    fn spec_batch_claimable_amount(&self, _: BatchId) -> Option<u128> {
        unreachable!()
    }

    fn spec_pending_batch_hint(&self, _: BatchId) -> Option<Hint> {
        unreachable!()
    }

    fn spec_committed_batch_epoch(&self, _: BatchId) -> Option<UnbondEpoch> {
        unreachable!()
    }

    fn spec_first_entered_batch(&self, _: IdentifierView) -> Option<BatchId> {
        unreachable!()
    }

    fn spec_last_entered_batch(&self, _: IdentifierView) -> Option<BatchId> {
        unreachable!()
    }

    fn spec_next_entered_batch(&self, _: IdentifierView, _: BatchId) -> Option<BatchId> {
        unreachable!()
    }

    fn spec_last_claimed_batch(&self, _: IdentifierView) -> Option<BatchId> {
        unreachable!()
    }

    fn spec_unbonded_value_in_batch(&self, _: IdentifierView, _: BatchId) -> Option<u128> {
        unreachable!()
    }

    fn last_committed_batch_id(&self) -> Option<BatchId> {
        self.last_committed_batch_id
    }

    fn batch_unbond_value(&self, batch: BatchId) -> Option<DepositValue> {
        self.unbonding_batches.get(&batch).map(|b| b.value)
    }

    fn batch_claimable_amount(&self, batch: BatchId) -> Option<ClaimAmount> {
        self.unbonding_batches.get(&batch).map(|b| b.amount)
    }

    fn pending_batch_hint(&self, _batch: BatchId) -> Option<Hint> {
        None
    }

    fn committed_batch_epoch(&self, batch: BatchId) -> Option<UnbondEpoch> {
        self.unbonding_batches.get(&batch).and_then(|b| b.epoch)
    }

    fn first_entered_batch(&self, recipient: &str) -> Option<BatchId> {
        self.recipient_batches.get(recipient).and_then(|r| r.first_entered)
    }

    fn last_entered_batch(&self, recipient: &str) -> Option<BatchId> {
        self.recipient_batches.get(recipient).and_then(|e| e.last_entered)
    }

    fn next_entered_batch(&self, recipient: &str, batch: BatchId) -> Option<BatchId> {
        self.recipient_batches.get(recipient).and_then(|r| r.batches.get(&batch)).and_then(|b| b.next)
    }

    fn last_claimed_batch(&self, recipient: &str) -> Option<BatchId> {
        self.recipient_batches.get(recipient).and_then(|r| r.last_claimed)
    }

    fn unbonded_value_in_batch(&self, recipient: &str, batch: BatchId) -> Option<DepositValue> {
        self.recipient_batches.get(recipient).and_then(|e| e.batches.get(&batch)).map(|b| b.value)
    }
}

impl SharesMint for World {
    fn spec_total_shares_issued(&self) -> u128 {
        unreachable!()
    }

    fn spec_shares_asset(&self) -> IdentifierView {
        unreachable!()
    }

    fn total_shares_issued(&self) -> TotalSharesIssued {
        TotalSharesIssued(self.total_shares)
    }

    fn shares_asset(&self) -> Asset {
        SHARES_ASSET.into()
    }
}


#[test]
fn vault_test_deposit_zero_errs() {
    check_err(
        World::default()
            .vault()
            .deposit(DEPOSIT_ASSET.into(), DepositAmount(0), BOB.into())
            .unwrap_err(),
        "cannot deposit zero",
    )
}

#[test]
fn vault_test_deposit_invalid_asset_errs() {
    check_err(
        World::default()
            .vault()
            .deposit("invalid_asset".into(), DepositAmount(100), BOB.into())
            .unwrap_err(),
        "invalid deposit asset",
    )
}

#[test]
fn deposit_causing_overflow_errs() {
    check_err(
        World::default()
            .total_deposits(u128::MAX)
            .vault()
            .deposit(DEPOSIT_ASSET.into(), DepositAmount(1), BOB.into())
            .unwrap_err(),
        "deposit too large",
    )
}

#[test]
fn deposit_too_small_errs() {
    check_err(
        World::default()
            .total_deposits(shares_amount(1) + 1)
            .total_shares(shares_amount(1))
            .vault()
            .deposit(DEPOSIT_ASSET.into(), DepositAmount(1), BOB.into())
            .unwrap_err(),
        "deposit too small",
    )
}

#[test]
fn deposit_after_total_loss_errs() {
    check_err(
        World::default()
            .total_shares(10)
            .vault()
            .deposit(DEPOSIT_ASSET.into(), DepositAmount(1), BOB.into())
            .unwrap_err(),
        "cannot deposit in total loss state",
    )
}

#[test]
fn vault_test_initial_deposit() {
    check(
        World::default()
            .vault()
            .deposit(DEPOSIT_ASSET.into(), DepositAmount(100), BOB.into())
            .unwrap(),
        r#"
            (
              cmds: [
                Strategy(Deposit(
                  amount: (100),
                )),
                Mint(Mint(
                  amount: (100000000000000),
                  recipient: "bob",
                )),
              ],
              deposit_value: (100),
              issued_shares: (100000000000000),
              total_shares_issued: (100000000000000),
              total_deposits_value: (100),
            )"#,
    )
}

#[test]
fn initial_deposit_with_underlying_redemption_rate_gt_1() {
    check(
        World::default()
            .underlying_redemption_rate(11, 10)
            .vault()
            .deposit(DEPOSIT_ASSET.into(), DepositAmount(100), BOB.into())
            .unwrap(),
        r#"
            (
              cmds: [
                Strategy(Deposit(
                  amount: (100),
                )),
                Mint(Mint(
                  amount: (109000000000000),
                  recipient: "bob",
                )),
              ],
              deposit_value: (109),
              issued_shares: (109000000000000),
              total_shares_issued: (109000000000000),
              total_deposits_value: (109),
            )"#,
    )
}

#[test]
fn regular_deposit() {
    check(
        World::default()
            .total_deposits(1_200)
            .total_shares(shares_amount(1_000))
            .vault()
            .deposit(DEPOSIT_ASSET.into(), DepositAmount(100), BOB.into())
            .unwrap(),
        r#"
            (
              cmds: [
                Strategy(Deposit(
                  amount: (100),
                )),
                Mint(Mint(
                  amount: (83333333333333333333),
                  recipient: "bob",
                )),
              ],
              deposit_value: (99),
              issued_shares: (83333333333333333333),
              total_shares_issued: (1083333333333333333333),
              total_deposits_value: (1300),
            )"#,
    )
}

#[test]
fn regular_deposit_with_underlying_redemption_rate_gt_1() {
    check(
        World::default()
            .total_deposits(1_000)
            .total_shares(shares_amount(1_000))
            .underlying_redemption_rate(11, 10)
            .vault()
            .deposit(DEPOSIT_ASSET.into(), DepositAmount(100), BOB.into())
            .unwrap(),
        r#"
            (
              cmds: [
                Strategy(Deposit(
                  amount: (100),
                )),
                Mint(Mint(
                  amount: (99181073703366696997),
                  recipient: "bob",
                )),
              ],
              deposit_value: (108),
              issued_shares: (99181073703366696997),
              total_shares_issued: (1099181073703366696997),
              total_deposits_value: (1208),
            )"#,
    )
}

#[test]
fn donate_zero_errs() {
    check_err(
        World::default()
            .vault()
            .donate(DEPOSIT_ASSET.into(), DepositAmount(0))
            .unwrap_err(),
        "cannot donate zero",
    )
}

#[test]
fn donate_invalid_asset_errs() {
    check_err(
        World::default()
            .vault()
            .donate("invalid_asset".into(), DepositAmount(100))
            .unwrap_err(),
        "invalid donation asset",
    )
}

#[test]
fn donate() {
    check(
        World::default()
            .vault()
            .donate(DEPOSIT_ASSET.into(), DepositAmount(100))
            .unwrap(),
        r#"
            Deposit(
              amount: (100),
            )"#,
    )
}

#[test]
fn redeem_invalid_asset_errs() {
    check_err(
        World::default()
            .vault()
            .redeem("invalid_asset".into(), SharesAmount(1), BOB.into())
            .unwrap_err(),
        "invalid redemption asset",
    )
}

#[test]
fn redeem_zero_errs() {
    check_err(
        World::default()
            .total_deposits(1_000)
            .total_shares(shares_amount(1_000))
            .vault()
            .redeem(SHARES_ASSET.into(), SharesAmount(0), BOB.into())
            .unwrap_err(),
        "cannot redeem zero",
    )
}

#[test]
fn redeem_total_loss_errs() {
    check_err(
        World::default()
            .total_shares(shares_amount(1_000))
            .vault()
            .redeem(
                SHARES_ASSET.into(),
                SharesAmount(shares_amount(100)),
                BOB.into(),
            )
            .unwrap_err(),
        "no deposits to redeem",
    )
}

#[test]
fn redeem_too_little_errs() {
    check_err(
        World::default()
            .total_deposits(1_000)
            .total_shares(shares_amount(1_000))
            .vault()
            .redeem(SHARES_ASSET.into(), SharesAmount(1), BOB.into())
            .unwrap_err(),
        "redemption too small",
    )
}

#[test]
fn redeem_first_time_unbond_ready() {
    check(
        World::default()
            .total_deposits(1_000)
            .total_shares(shares_amount(1_000))
            .vault()
            .redeem(
                SHARES_ASSET.into(),
                SharesAmount(shares_amount(100)),
                BOB.into(),
            )
            .unwrap(),
        r#"
            [
              UnbondingLog(BatchTotalUnbondValue(
                batch: 0,
                value: (100),
              )),
              UnbondingLog(UnbondedValueInBatch(
                recipient: "bob",
                batch: 0,
                value: (100),
              )),
              Mint(Burn(
                amount: (100000000000000000000),
              )),
              UnbondingLog(LastEnteredBatch(
                recipient: "bob",
                batch: 0,
              )),
              UnbondingLog(FirstEnteredBatch(
                recipient: "bob",
                batch: 0,
              )),
              UnbondingLog(LastCommittedBatchId(0)),
              UnbondingLog(BatchClaimableAmount(
                batch: 0,
                amount: (100),
              )),
              UnbondingLog(BatchEpoch(
                batch: 0,
                epoch: (
                  start: 1,
                  end: 2,
                ),
              )),
              Strategy(Unbond(
                value: (100),
              )),
            ]"#,
    )
}

#[test]
fn redeem_first_time_unbond_ready_underlying_redemption_rate_gt_1() {
    check(
        World::default()
            .total_deposits(1_000)
            .total_shares(shares_amount(1_000))
            .underlying_redemption_rate(11, 10)
            .vault()
            .redeem(
                SHARES_ASSET.into(),
                SharesAmount(shares_amount(100)),
                BOB.into(),
            )
            .unwrap(),
        r#"
            [
              UnbondingLog(BatchTotalUnbondValue(
                batch: 0,
                value: (109),
              )),
              UnbondingLog(UnbondedValueInBatch(
                recipient: "bob",
                batch: 0,
                value: (109),
              )),
              Mint(Burn(
                amount: (100000000000000000000),
              )),
              UnbondingLog(LastEnteredBatch(
                recipient: "bob",
                batch: 0,
              )),
              UnbondingLog(FirstEnteredBatch(
                recipient: "bob",
                batch: 0,
              )),
              UnbondingLog(LastCommittedBatchId(0)),
              UnbondingLog(BatchClaimableAmount(
                batch: 0,
                amount: (99),
              )),
              UnbondingLog(BatchEpoch(
                batch: 0,
                epoch: (
                  start: 1,
                  end: 2,
                ),
              )),
              Strategy(Unbond(
                value: (109),
              )),
            ]"#,
    )
}

#[test]
fn redeem_first_time_unbond_later() {
    check(
        World::default()
            .total_deposits(1_000)
            .total_shares(shares_amount(1_000))
            .unbond_later()
            .vault()
            .redeem(
                SHARES_ASSET.into(),
                SharesAmount(shares_amount(100)),
                BOB.into(),
            )
            .unwrap(),
        r#"
            [
              UnbondingLog(BatchTotalUnbondValue(
                batch: 0,
                value: (100),
              )),
              UnbondingLog(UnbondedValueInBatch(
                recipient: "bob",
                batch: 0,
                value: (100),
              )),
              Mint(Burn(
                amount: (100000000000000000000),
              )),
              UnbondingLog(LastEnteredBatch(
                recipient: "bob",
                batch: 0,
              )),
              UnbondingLog(FirstEnteredBatch(
                recipient: "bob",
                batch: 0,
              )),
              UnbondingLog(BatchHint(
                batch: 0,
                hint: 1,
              )),
            ]"#,
    )
}

#[test]
fn multiple_redemptions_in_one_batch() {
    const INITIAL_DEPOSITS: u128 = 1000;
    const BOB_REDEEM: u128 = 100;
    const ALICE_REDEEM: u128 = 100;

    let world = World::default()
        .total_deposits(INITIAL_DEPOSITS)
        .total_shares(shares_amount(INITIAL_DEPOSITS))
        .unbond_later();

    let cmds = vault(&world, &world, &world)
        .redeem(
            SHARES_ASSET.into(),
            SharesAmount(shares_amount(BOB_REDEEM)),
            BOB.into(),
        )
        .unwrap();

    check(
        &cmds,
        r#"
            [
              UnbondingLog(BatchTotalUnbondValue(
                batch: 0,
                value: (100),
              )),
              UnbondingLog(UnbondedValueInBatch(
                recipient: "bob",
                batch: 0,
                value: (100),
              )),
              Mint(Burn(
                amount: (100000000000000000000),
              )),
              UnbondingLog(LastEnteredBatch(
                recipient: "bob",
                batch: 0,
              )),
              UnbondingLog(FirstEnteredBatch(
                recipient: "bob",
                batch: 0,
              )),
              UnbondingLog(BatchHint(
                batch: 0,
                hint: 1,
              )),
            ]"#,
    );

    let world = world.handle_cmds(cmds).unbond_ready();

    let cmds = world
        .vault()
        .redeem(
            SHARES_ASSET.into(),
            SharesAmount(shares_amount(ALICE_REDEEM)),
            ALICE.into(),
        )
        .unwrap();

    check(
        &cmds,
        r#"
            [
              UnbondingLog(BatchTotalUnbondValue(
                batch: 0,
                value: (200),
              )),
              UnbondingLog(UnbondedValueInBatch(
                recipient: "alice",
                batch: 0,
                value: (100),
              )),
              Mint(Burn(
                amount: (100000000000000000000),
              )),
              UnbondingLog(LastEnteredBatch(
                recipient: "alice",
                batch: 0,
              )),
              UnbondingLog(FirstEnteredBatch(
                recipient: "alice",
                batch: 0,
              )),
              UnbondingLog(LastCommittedBatchId(0)),
              UnbondingLog(BatchClaimableAmount(
                batch: 0,
                amount: (200),
              )),
              UnbondingLog(BatchEpoch(
                batch: 0,
                epoch: (
                  start: 1,
                  end: 2,
                ),
              )),
              Strategy(Unbond(
                value: (200),
              )),
            ]"#,
    );

    let world = world.handle_cmds(cmds);

    assert_eq!(
        world.total_deposits,
        INITIAL_DEPOSITS - BOB_REDEEM - ALICE_REDEEM
    )
}

#[test]
fn redeem_in_multiple_batches() {
    let world = World::default()
        .total_deposits(1_000)
        .total_shares(shares_amount(1_000));

    let cmds = vault(&world, &world, &world)
        .redeem(
            SHARES_ASSET.into(),
            SharesAmount(shares_amount(100)),
            BOB.into(),
        )
        .unwrap();

    let cmds = world
        .handle_cmds(cmds)
        .vault()
        .redeem(
            SHARES_ASSET.into(),
            SharesAmount(shares_amount(100)),
            BOB.into(),
        )
        .unwrap();

    let next_entered_cmd = cmds
        .into_iter()
        .find(|cmd| {
            matches!(
                cmd,
                Cmd::UnbondingLog(UnbondingLogSet::NextEnteredBatch { .. })
            )
        })
        .unwrap();

    check(
        next_entered_cmd,
        r#"
            UnbondingLog(NextEnteredBatch(
              recipient: "bob",
              previous: 0,
              next: 1,
            ))"#,
    );
}

#[test]
fn claim_without_unbonding_batches_errs() {
    check_err(
        World::default()
            .total_deposits(1_000)
            .total_shares(shares_amount(1_000))
            .vault()
            .claim(BOB.into())
            .unwrap_err(),
        "nothing to claim",
    )
}

#[test]
fn claim_without_finished_batches_errs() {
    let world = World::default()
        .total_deposits(1_000)
        .total_shares(shares_amount(1_000));

    let cmds = vault(&world, &world, &world)
        .redeem(
            SHARES_ASSET.into(),
            SharesAmount(shares_amount(100)),
            BOB.into(),
        )
        .unwrap();

    check_err(
        world
            .handle_cmds(cmds)
            .vault()
            .claim(BOB.into())
            .unwrap_err(),
        "nothing to claim",
    )
}

#[test]
fn claim() {
    let world = World::default()
        .total_deposits(1_000)
        .total_shares(shares_amount(1_000));

    let cmds = vault(&world, &world, &world)
        .redeem(
            SHARES_ASSET.into(),
            SharesAmount(shares_amount(100)),
            BOB.into(),
        )
        .unwrap();

    check(
        world
            .handle_cmds(cmds)
            .now(2)
            .vault()
            .claim(BOB.into())
            .unwrap(),
        r#"
            [
              UnbondingLog(LastClaimedBatch(
                recipient: "bob",
                batch: 0,
              )),
              Strategy(SendClaimed(
                amount: (100),
                recipient: "bob",
              )),
            ]"#,
    )
}

#[test]
fn claim_multiple() {
    let world = World::default()
        .total_deposits(1_000)
        .total_shares(shares_amount(1_000));

    let cmds = vault(&world, &world, &world)
        .redeem(
            SHARES_ASSET.into(),
            SharesAmount(shares_amount(100)),
            BOB.into(),
        )
        .unwrap();

    let world = world.handle_cmds(cmds).now(2);

    let cmds = vault(&world, &world, &world)
        .redeem(
            SHARES_ASSET.into(),
            SharesAmount(shares_amount(200)),
            BOB.into(),
        )
        .unwrap();

    let world = world.handle_cmds(cmds).now(3);

    let cmds = vault(&world, &world, &world)
        .redeem(
            SHARES_ASSET.into(),
            SharesAmount(shares_amount(500)),
            BOB.into(),
        )
        .unwrap();

    check(
        world.handle_cmds(cmds).vault().claim(BOB.into()).unwrap(),
        r#"
            [
              UnbondingLog(LastClaimedBatch(
                recipient: "bob",
                batch: 1,
              )),
              Strategy(SendClaimed(
                amount: (300),
                recipient: "bob",
              )),
            ]"#,
    )
}

#[test]
fn start_unbond_with_empty_ready_pending_batch_errs() {
    check_err(
        World::default()
            .total_deposits(1_000)
            .total_shares(shares_amount(1_000))
            .vault()
            .start_unbond()
            .unwrap_err(),
        "nothing to unbond",
    )
}

#[test]
fn start_unbond_with_still_pending_batch_errs() {
    let world = World::default()
        .unbond_later()
        .total_deposits(1_000)
        .total_shares(shares_amount(1_000));

    let cmds = vault(&world, &world, &world)
        .redeem(
            SHARES_ASSET.into(),
            SharesAmount(shares_amount(100)),
            BOB.into(),
        )
        .unwrap();

    check_err(
        world.handle_cmds(cmds).vault().start_unbond().unwrap_err(),
        "unbond not ready",
    )
}

#[test]
fn start_unbond() {
    let world = World::default()
        .unbond_later()
        .total_deposits(1_000)
        .total_shares(shares_amount(1_000));

    let cmds = vault(&world, &world, &world)
        .redeem(
            SHARES_ASSET.into(),
            SharesAmount(shares_amount(100)),
            BOB.into(),
        )
        .unwrap();

    check(
        world
            .handle_cmds(cmds)
            .unbond_ready()
            .vault()
            .start_unbond()
            .unwrap(),
        r#"
            [
              UnbondingLog(LastCommittedBatchId(0)),
              UnbondingLog(BatchClaimableAmount(
                batch: 0,
                amount: (100),
              )),
              UnbondingLog(BatchEpoch(
                batch: 0,
                epoch: (
                  start: 1,
                  end: 2,
                ),
              )),
              Strategy(Unbond(
                value: (100),
              )),
            ]"#,
    )
}

// ---------------------------------------------------------------------------------------------
// Unbonding queries and event attributes
// ---------------------------------------------------------------------------------------------

fn previously_entered<'a>(world: &'a World, recipient: &str) -> impl Fn(BatchId) -> Option<BatchId> + 'a {
    let entry = world.recipient_batches.get(recipient);
    move |batch| entry.and_then(|e| e.batches.range(..batch).next_back().map(|(b, _)| *b))
}

/// bob unbonds 100 in batch 0 (epoch 1..2) and 50 in batch 1 (epoch 5..6); `pending` more wait in batch 2.
fn two_committed_batches(pending: u128) -> World {
    let world = World::default().now(1).unbond_later().total_deposits(1_000).total_shares(shares_amount(1_000));
    let cmds = world.vault().redeem(SHARES_ASSET.into(), SharesAmount(shares_amount(100)), BOB.into()).unwrap();
    let world = world.handle_cmds(cmds).unbond_ready();
    let cmds = world.vault().start_unbond().unwrap();
    let world = world.handle_cmds(cmds).now(5).unbond_later();
    let cmds = world.vault().redeem(SHARES_ASSET.into(), SharesAmount(shares_amount(50)), BOB.into()).unwrap();
    let world = world.handle_cmds(cmds).unbond_ready();
    let cmds = world.vault().start_unbond().unwrap();
    let mut world = world.handle_cmds(cmds).unbond_later();
    if pending > 0 {
        let cmds =
            world.vault().redeem(SHARES_ASSET.into(), SharesAmount(shares_amount(pending)), BOB.into()).unwrap();
        world = world.handle_cmds(cmds);
    }
    world
}

fn status(amount: u128, start: u64, end: u64) -> UnbondingStatus {
    UnbondingStatus { amount, start, end }
}

#[test]
fn pending_unbonding_of_vault_and_recipient() {
    let world = World::default().unbond_later().total_deposits(1_000).total_shares(shares_amount(1_000));
    let cmds = world.vault().redeem(SHARES_ASSET.into(), SharesAmount(shares_amount(100)), BOB.into()).unwrap();
    let world = world.handle_cmds(cmds);

    assert_eq!(pending_unbonding(&world, None), PendingUnbonding { amount: 100, start_hint: None });
    assert_eq!(pending_unbonding(&world, Some(BOB)), PendingUnbonding { amount: 100, start_hint: None });
    assert_eq!(pending_unbonding(&world, Some(ALICE)), PendingUnbonding { amount: 0, start_hint: None });

    let world = two_committed_batches(7);
    assert_eq!(pending_unbonding(&world, None).amount, 7);
    assert_eq!(pending_unbonding(&World::default(), None).amount, 0);
}

#[test]
fn all_active_unbondings_newest_first() {
    let world = two_committed_batches(0);

    assert_eq!(all_active_unbondings(&world, 2, None), vec![status(50, 5, 6), status(100, 1, 2)]);
    // batch 0 has ended by 3, and the listing stops there
    assert_eq!(all_active_unbondings(&world, 3, None), vec![status(50, 5, 6)]);
    assert_eq!(all_active_unbondings(&world, 7, None), vec![]);
    assert_eq!(all_active_unbondings(&World::default(), 0, None), vec![]);
}

#[test]
fn all_active_unbondings_respects_limit() {
    let world = two_committed_batches(0);

    assert_eq!(all_active_unbondings(&world, 2, Some(1)), vec![status(50, 5, 6)]);
    assert_eq!(all_active_unbondings(&world, 2, Some(2)), vec![status(50, 5, 6), status(100, 1, 2)]);
    assert_eq!(all_active_unbondings(&world, 2, Some(3)), vec![status(50, 5, 6), status(100, 1, 2)]);
    // at most `limit` entries: none for a limit of zero
    assert_eq!(all_active_unbondings(&world, 2, Some(0)), vec![]);
}

#[test]
fn account_active_unbondings_walks_back_through_entered_batches() {
    let world = two_committed_batches(0);

    assert_eq!(
        account_active_unbondings(previously_entered(&world, BOB), &world, 2, BOB, None),
        vec![status(50, 5, 6), status(100, 1, 2)]
    );
    assert_eq!(account_active_unbondings(previously_entered(&world, BOB), &world, 3, BOB, None), vec![status(50, 5, 6)]);
    assert_eq!(account_active_unbondings(previously_entered(&world, BOB), &world, 2, BOB, Some(1)), vec![status(50, 5, 6)]);
    assert_eq!(account_active_unbondings(previously_entered(&world, BOB), &world, 2, BOB, Some(0)), vec![]);
    assert_eq!(account_active_unbondings(previously_entered(&world, ALICE), &world, 2, ALICE, None), vec![]);
}

#[test]
fn account_active_unbondings_skips_the_pending_batch() {
    let world = two_committed_batches(10);

    assert_eq!(
        account_active_unbondings(previously_entered(&world, BOB), &world, 2, BOB, None),
        vec![status(50, 5, 6), status(100, 1, 2)]
    );
}

#[test]
fn claimable_is_what_a_claim_sends() {
    for now in [1, 2, 3, 6, 7] {
        let world = two_committed_batches(0).now(now);
        let amount = claimable(BOB, &world, &world);
        match world.vault().claim(BOB.into()) {
            Ok(cmds) => match &cmds[1] {
                Cmd::Strategy(StrategyCmd::SendClaimed { amount: sent, .. }) => assert_eq!(sent.0, amount),
                other => panic!("unexpected command {other:?}"),
            },
            Err(err) => {
                assert_eq!(err, Error::NothingToClaim);
                assert_eq!(amount, 0);
            }
        }
    }
    assert_eq!(claimable(BOB, &two_committed_batches(0).now(2), &two_committed_batches(0).now(2)), 100);
    assert_eq!(claimable(BOB, &two_committed_batches(0).now(6), &two_committed_batches(0).now(6)), 150);
    assert_eq!(claimable(ALICE, &two_committed_batches(0).now(6), &two_committed_batches(0).now(6)), 0);
}

#[test]
fn cmd_attrs_describe_start_unbond() {
    let world = World::default().unbond_later().total_deposits(1_000).total_shares(shares_amount(1_000));
    let cmds = world.vault().redeem(SHARES_ASSET.into(), SharesAmount(shares_amount(100)), BOB.into()).unwrap();
    let world = world.handle_cmds(cmds).unbond_ready();
    let cmds = world.vault().start_unbond().unwrap();

    assert_eq!(
        cmd_attrs(&cmds),
        vec![
            (AttrKey::BatchCommitted, 0),
            (AttrKey::BatchTotalClaim, 100),
            (AttrKey::BatchStart, 1),
            (AttrKey::BatchEnd, 2),
            (AttrKey::UnbondValue, 100),
            (AttrKey::Batch, 0),
        ]
    );
}

#[test]
fn cmd_attrs_name_the_first_batch_once() {
    let cmds = vec![
        Cmd::Mint(MintCmd::Burn { amount: SharesAmount(5) }),
        Cmd::UnbondingLog(UnbondingLogSet::BatchTotalUnbondValue { batch: 3, value: DepositValue(9) }),
        Cmd::UnbondingLog(UnbondingLogSet::UnbondedValueInBatch {
            recipient: BOB.into(),
            batch: 4,
            value: DepositValue(2),
        }),
        Cmd::UnbondingLog(UnbondingLogSet::LastEnteredBatch { recipient: BOB.into(), batch: 4 }),
        Cmd::Strategy(StrategyCmd::Deposit { amount: DepositAmount(8) }),
        Cmd::Mint(MintCmd::Mint { amount: SharesAmount(6), recipient: BOB.into() }),
    ];

    assert_eq!(
        cmd_attrs(&cmds),
        vec![
            (AttrKey::BurnShares, 5),
            (AttrKey::BatchTotalValue, 9),
            (AttrKey::BatchRecipientValue, 2),
            (AttrKey::Amount, 8),
            (AttrKey::MintShares, 6),
            (AttrKey::Batch, 3),
        ]
    );
    assert_eq!(cmd_attrs(&[]), vec![]);
}

#[test]
fn attr_keys_read_as_event_keys() {
    assert_eq!(AttrKey::MintShares.as_str(), "mint_shares");
    assert_eq!(AttrKey::BatchRecipientValue.as_str(), "batch_recipient_value");
    assert_eq!(AttrKey::Batch.as_str(), "batch");
}
