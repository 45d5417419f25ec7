//! The stored state the reconciliation reads and writes, the handlers of each phase and the loop that runs them.
use vstd::prelude::*;

use super::types::{
    weight_values, Account, CurrentHeight, DelegateStartSlot, Delegated, DelegationsReport, FeeBpsBlockIncrement,
    FeeMetadata, FeePaymentCooldownBlocks, FeeRecipient, InflightDelegation, InflightDeposit, InflightFeePayable,
    InflightRewardsReceivable, InflightUnbond, LastReconcileHeight, MaxFeeBps, MaxMsgCount, MsgIssuedCount,
    MsgSuccessCount, Now, PendingDeposit, PendingUnbond, Phase, RedelegationSlot, RemoteBalanceReport, State,
    UnbondingTimeSecs, UndelegateStartSlot, UndelegatedBalanceReport, ValidatorSetSize, Weights,
};
use super::{cmds_view, Cmd, CmdView};

verus! {

/// The fixed configuration, as values; weights are given by their raw values.
pub struct ConfigView {
    pub unbonding_time: UnbondingTimeSecs,
    pub max_msg_count: MaxMsgCount,
    pub fee_payout_cooldown: FeePaymentCooldownBlocks,
    pub fee_bps_block_increment: FeeBpsBlockIncrement,
    pub max_fee_bps: MaxFeeBps,
    pub starting_weights: Seq<nat>,
    pub validator_set_size: ValidatorSetSize,
}

/// Access fixed config
pub trait Config {
    /// The configuration this gives access to.
    spec fn config_view(&self) -> ConfigView;

    fn unbonding_time(&self) -> (r: UnbondingTimeSecs)
        ensures
            r == self.config_view().unbonding_time,
    ;

    fn max_msg_count(&self) -> (r: MaxMsgCount)
        ensures
            r == self.config_view().max_msg_count,
    ;

    fn fee_payout_cooldown(&self) -> (r: FeePaymentCooldownBlocks)
        ensures
            r == self.config_view().fee_payout_cooldown,
    ;

    fn fee_bps_block_increment(&self) -> (r: FeeBpsBlockIncrement)
        ensures
            r == self.config_view().fee_bps_block_increment,
    ;

    fn max_fee_bps(&self) -> (r: MaxFeeBps)
        ensures
            r == self.config_view().max_fee_bps,
    ;

    fn starting_weights(&self) -> (r: Weights)
        ensures
            weight_values(r@) == self.config_view().starting_weights,
    ;

    fn validator_set_size(&self) -> (r: ValidatorSetSize)
        ensures
            r == self.config_view().validator_set_size,
    ;
}

/// The mutable state, as values; weights are given by their raw values.
pub struct Stored {
    pub delegated: Delegated,
    pub delegate_start_slot: DelegateStartSlot,
    pub inflight_delegation: InflightDelegation,
    pub inflight_deposit: InflightDeposit,
    pub inflight_fee_payable: InflightFeePayable,
    pub inflight_rewards_receivable: InflightRewardsReceivable,
    pub inflight_unbond: InflightUnbond,
    pub last_reconcile_height: Option<LastReconcileHeight>,
    pub msg_issued_count: MsgIssuedCount,
    pub msg_success_count: MsgSuccessCount,
    pub pending_deposit: PendingDeposit,
    pub pending_unbond: PendingUnbond,
    pub phase: Phase,
    pub state: State,
    pub redelegation_slot: Option<RedelegationSlot>,
    pub undelegate_start_slot: UndelegateStartSlot,
    pub weights: Seq<nat>,
}

/// Access mutable storage
pub trait Repository {
    /// The stored state this gives access to.
    spec fn stored(&self) -> Stored;

    fn delegated(&self) -> (r: Delegated)
        ensures
            r == self.stored().delegated,
    ;

    fn delegate_start_slot(&self) -> (r: DelegateStartSlot)
        ensures
            r == self.stored().delegate_start_slot,
    ;

    fn inflight_delegation(&self) -> (r: InflightDelegation)
        ensures
            r == self.stored().inflight_delegation,
    ;

    fn inflight_deposit(&self) -> (r: InflightDeposit)
        ensures
            r == self.stored().inflight_deposit,
    ;

    fn inflight_fee_payable(&self) -> (r: InflightFeePayable)
        ensures
            r == self.stored().inflight_fee_payable,
    ;

    fn inflight_rewards_receivable(&self) -> (r: InflightRewardsReceivable)
        ensures
            r == self.stored().inflight_rewards_receivable,
    ;

    fn inflight_unbond(&self) -> (r: InflightUnbond)
        ensures
            r == self.stored().inflight_unbond,
    ;

    fn last_reconcile_height(&self) -> (r: Option<LastReconcileHeight>)
        ensures
            r == self.stored().last_reconcile_height,
    ;

    fn msg_issued_count(&self) -> (r: MsgIssuedCount)
        ensures
            r == self.stored().msg_issued_count,
    ;

    fn msg_success_count(&self) -> (r: MsgSuccessCount)
        ensures
            r == self.stored().msg_success_count,
    ;

    fn pending_deposit(&self) -> (r: PendingDeposit)
        ensures
            r == self.stored().pending_deposit,
    ;

    fn pending_unbond(&self) -> (r: PendingUnbond)
        ensures
            r == self.stored().pending_unbond,
    ;

    fn phase(&self) -> (r: Phase)
        ensures
            r == self.stored().phase,
    ;

    fn state(&self) -> (r: State)
        ensures
            r == self.stored().state,
    ;

    fn redelegation_slot(&self) -> (r: Option<RedelegationSlot>)
        ensures
            r == self.stored().redelegation_slot,
    ;

    fn undelegate_start_slot(&self) -> (r: UndelegateStartSlot)
        ensures
            r == self.stored().undelegate_start_slot,
    ;

    fn weights(&self) -> (r: Weights)
        ensures
            weight_values(r@) == self.stored().weights,
    ;
}

/// The current environment, as values.
pub struct EnvView {
    pub current_height: CurrentHeight,
    pub now: Now,
    pub delegation_account_address: Option<Account>,
    pub rewards_account_address: Option<Account>,
    pub fee_recipient: Option<FeeRecipient>,
    pub delegations_report: Option<DelegationsReport>,
    pub rewards_balance_report: Option<RemoteBalanceReport>,
    pub undelegated_balance_report: Option<UndelegatedBalanceReport>,
}

/// Access current environment
pub trait Env {
    /// The environment this gives access to.
    spec fn env_view(&self) -> EnvView;

    fn current_height(&self) -> (r: CurrentHeight)
        ensures
            r == self.env_view().current_height,
    ;

    fn now(&self) -> (r: Now)
        ensures
            r == self.env_view().now,
    ;

    fn delegation_account_address(&self) -> (r: Option<Account>)
        ensures
            r == self.env_view().delegation_account_address,
    ;

    fn rewards_account_address(&self) -> (r: Option<Account>)
        ensures
            r == self.env_view().rewards_account_address,
    ;

    fn fee_recipient(&self) -> (r: Option<FeeRecipient>)
        ensures
            r == self.env_view().fee_recipient,
    ;

    fn delegations_report(&self) -> (r: Option<DelegationsReport>)
        ensures
            r == self.env_view().delegations_report,
    ;

    fn rewards_balance_report(&self) -> (r: Option<RemoteBalanceReport>)
        ensures
            r == self.env_view().rewards_balance_report,
    ;

    fn undelegated_balance_report(&self) -> (r: Option<UndelegatedBalanceReport>)
        ensures
            r == self.env_view().undelegated_balance_report,
    ;
}

/// The fee metadata of the configuration and environment.
pub open spec fn spec_fee_metadata(c: ConfigView, e: EnvView) -> FeeMetadata {
    FeeMetadata {
        fee_recipient: e.fee_recipient,
        fee_payout_cooldown: c.fee_payout_cooldown,
        fee_bps_block_increment: c.fee_bps_block_increment,
        max_fee_bps: c.max_fee_bps,
    }
}

/// The fee metadata of the configuration and environment.
pub fn fee_metadata<C: Config, E: Env>(config: &C, env: &E) -> (r: FeeMetadata)
    ensures
        r == spec_fee_metadata(config.config_view(), env.env_view()),
{
    FeeMetadata {
        fee_recipient: env.fee_recipient(),
        fee_payout_cooldown: config.fee_payout_cooldown(),
        fee_bps_block_increment: config.fee_bps_block_increment(),
        max_fee_bps: config.max_fee_bps(),
    }
}

/// The rewards balance, when the report of it is fresher than the last reconciliation and it is not zero.
pub open spec fn spec_rewards_balance(e: EnvView, last_reconcile_height: LastReconcileHeight) -> Option<nat> {
    match e.rewards_balance_report {
        None => None,
        Some(report) => if report.height <= last_reconcile_height.0 || report.amount.0 == 0 {
            None
        } else {
            Some(report.amount.0 as nat)
        },
    }
}

/// The rewards balance, when the report of it is fresher than the last reconciliation and it is not zero.
pub fn rewards_balance<E: Env>(env: &E, last_reconcile_height: LastReconcileHeight) -> (r: Option<u128>)
    ensures
        match r {
            Some(v) => spec_rewards_balance(env.env_view(), last_reconcile_height) == Some(v as nat),
            None => spec_rewards_balance(env.env_view(), last_reconcile_height) is None,
        },
{
    let report = match env.rewards_balance_report() {
        Some(r) => r,
        None => {
            return None;
        },
    };
    if report.height <= last_reconcile_height.0 {
        return None;
    }
    let amount = report.amount.0;
    if amount == 0 {
        return None;
    }
    Some(amount)
}

/// The commands applied so far in a reconciliation, by the value they set.
pub struct Cache {
    pub clear_redelegation: bool,
    pub delegated: Option<Delegated>,
    pub delegate_start_slot: Option<DelegateStartSlot>,
    pub inflight_delegation: Option<InflightDelegation>,
    pub inflight_deposit: Option<InflightDeposit>,
    pub inflight_fee_payable: Option<InflightFeePayable>,
    pub inflight_rewards_receivable: Option<InflightRewardsReceivable>,
    pub inflight_unbond: Option<InflightUnbond>,
    pub last_reconcile_height: Option<LastReconcileHeight>,
    pub msg_issued_count: Option<MsgIssuedCount>,
    pub msg_success_count: Option<MsgSuccessCount>,
    pub pending_deposit: Option<PendingDeposit>,
    pub pending_unbond: Option<PendingUnbond>,
    pub undelegate_start_slot: Option<UndelegateStartSlot>,
    pub weights: Option<Weights>,
}

/// The cache as values; weights are given by their raw values.
pub struct CacheView {
    pub clear_redelegation: bool,
    pub delegated: Option<Delegated>,
    pub delegate_start_slot: Option<DelegateStartSlot>,
    pub inflight_delegation: Option<InflightDelegation>,
    pub inflight_deposit: Option<InflightDeposit>,
    pub inflight_fee_payable: Option<InflightFeePayable>,
    pub inflight_rewards_receivable: Option<InflightRewardsReceivable>,
    pub inflight_unbond: Option<InflightUnbond>,
    pub last_reconcile_height: Option<LastReconcileHeight>,
    pub msg_issued_count: Option<MsgIssuedCount>,
    pub msg_success_count: Option<MsgSuccessCount>,
    pub pending_deposit: Option<PendingDeposit>,
    pub pending_unbond: Option<PendingUnbond>,
    pub undelegate_start_slot: Option<UndelegateStartSlot>,
    pub weights: Option<Seq<nat>>,
}

impl View for Cache {
    type V = CacheView;

    open spec fn view(&self) -> CacheView {
        CacheView {
            clear_redelegation: self.clear_redelegation,
            delegated: self.delegated,
            delegate_start_slot: self.delegate_start_slot,
            inflight_delegation: self.inflight_delegation,
            inflight_deposit: self.inflight_deposit,
            inflight_fee_payable: self.inflight_fee_payable,
            inflight_rewards_receivable: self.inflight_rewards_receivable,
            inflight_unbond: self.inflight_unbond,
            last_reconcile_height: self.last_reconcile_height,
            msg_issued_count: self.msg_issued_count,
            msg_success_count: self.msg_success_count,
            pending_deposit: self.pending_deposit,
            pending_unbond: self.pending_unbond,
            undelegate_start_slot: self.undelegate_start_slot,
            weights: match self.weights {
                Some(w) => Some(weight_values(w@)),
                None => None,
            },
        }
    }
}

/// The cache before any command.
pub open spec fn empty_cache() -> CacheView {
    CacheView {
        clear_redelegation: false,
        delegated: None,
        delegate_start_slot: None,
        inflight_delegation: None,
        inflight_deposit: None,
        inflight_fee_payable: None,
        inflight_rewards_receivable: None,
        inflight_unbond: None,
        last_reconcile_height: None,
        msg_issued_count: None,
        msg_success_count: None,
        pending_deposit: None,
        pending_unbond: None,
        undelegate_start_slot: None,
        weights: None,
    }
}

impl Default for Cache {
    fn default() -> (r: Self)
        ensures
            r@ == empty_cache(),
    {
        Cache {
            clear_redelegation: false,
            delegated: None,
            delegate_start_slot: None,
            inflight_delegation: None,
            inflight_deposit: None,
            inflight_fee_payable: None,
            inflight_rewards_receivable: None,
            inflight_unbond: None,
            last_reconcile_height: None,
            msg_issued_count: None,
            msg_success_count: None,
            pending_deposit: None,
            pending_unbond: None,
            undelegate_start_slot: None,
            weights: None,
        }
    }
}

/// A command the cache takes: every command but setting the phase or the state.
pub open spec fn is_cache_cmd(cmd: CmdView) -> bool {
    !(cmd is Phase) && !(cmd is State)
}

/// The cache after a command.
pub open spec fn cache_apply(c: CacheView, cmd: CmdView) -> CacheView {
    match cmd {
        CmdView::ClearRedelegationRequest => CacheView { clear_redelegation: true, ..c },
        CmdView::Delegated(v) => CacheView { delegated: Some(v), ..c },
        CmdView::DelegateStartSlot(v) => CacheView { delegate_start_slot: Some(v), ..c },
        CmdView::InflightDelegation(v) => CacheView { inflight_delegation: Some(v), ..c },
        CmdView::InflightDeposit(v) => CacheView { inflight_deposit: Some(v), ..c },
        CmdView::InflightFeePayable(v) => CacheView { inflight_fee_payable: Some(v), ..c },
        CmdView::InflightRewardsReceivable(v) => CacheView { inflight_rewards_receivable: Some(v), ..c },
        CmdView::InflightUnbond(v) => CacheView { inflight_unbond: Some(v), ..c },
        CmdView::LastReconcileHeight(v) => CacheView { last_reconcile_height: Some(v), ..c },
        CmdView::MsgIssuedCount(v) => CacheView { msg_issued_count: Some(v), ..c },
        CmdView::MsgSuccessCount(v) => CacheView { msg_success_count: Some(v), ..c },
        CmdView::PendingDeposit(v) => CacheView { pending_deposit: Some(v), ..c },
        CmdView::PendingUnbond(v) => CacheView { pending_unbond: Some(v), ..c },
        CmdView::UndelegateStartSlot(v) => CacheView { undelegate_start_slot: Some(v), ..c },
        CmdView::Weights(w) => CacheView { weights: Some(w), ..c },
        CmdView::Phase(_) => c,
        CmdView::State(_) => c,
    }
}

/// The cache after the commands, in order.
pub open spec fn cache_apply_all(c: CacheView, cmds: Seq<CmdView>) -> CacheView
    decreases cmds.len(),
{
    if cmds.len() == 0 {
        c
    } else {
        cache_apply(cache_apply_all(c, cmds.drop_last()), cmds.last())
    }
}

/// The stored state seen through the cache: a cached value wins over the stored one.
pub open spec fn overlay(c: CacheView, s: Stored) -> Stored {
    Stored {
        delegated: match c.delegated {
            Some(v) => v,
            None => s.delegated,
        },
        delegate_start_slot: match c.delegate_start_slot {
            Some(v) => v,
            None => s.delegate_start_slot,
        },
        inflight_delegation: match c.inflight_delegation {
            Some(v) => v,
            None => s.inflight_delegation,
        },
        inflight_deposit: match c.inflight_deposit {
            Some(v) => v,
            None => s.inflight_deposit,
        },
        inflight_fee_payable: match c.inflight_fee_payable {
            Some(v) => v,
            None => s.inflight_fee_payable,
        },
        inflight_rewards_receivable: match c.inflight_rewards_receivable {
            Some(v) => v,
            None => s.inflight_rewards_receivable,
        },
        inflight_unbond: match c.inflight_unbond {
            Some(v) => v,
            None => s.inflight_unbond,
        },
        last_reconcile_height: match c.last_reconcile_height {
            Some(v) => Some(v),
            None => s.last_reconcile_height,
        },
        msg_issued_count: match c.msg_issued_count {
            Some(v) => v,
            None => s.msg_issued_count,
        },
        msg_success_count: match c.msg_success_count {
            Some(v) => v,
            None => s.msg_success_count,
        },
        pending_deposit: match c.pending_deposit {
            Some(v) => v,
            None => s.pending_deposit,
        },
        pending_unbond: match c.pending_unbond {
            Some(v) => v,
            None => s.pending_unbond,
        },
        phase: s.phase,
        state: s.state,
        redelegation_slot: if c.clear_redelegation {
            None
        } else {
            s.redelegation_slot
        },
        undelegate_start_slot: match c.undelegate_start_slot {
            Some(v) => v,
            None => s.undelegate_start_slot,
        },
        weights: match c.weights {
            Some(w) => w,
            None => s.weights,
        },
    }
}

/// One command for a present value, none otherwise.
pub open spec fn opt_cmd(present: bool, cmd: CmdView) -> Seq<CmdView> {
    if present {
        seq![cmd]
    } else {
        Seq::empty()
    }
}

/// The commands that set the cached values, in a fixed order.
pub open spec fn cache_cmds(c: CacheView) -> Seq<CmdView> {
    cache_cmds_first(c) + cache_cmds_second(c) + cache_cmds_third(c)
}

/// The first five cached commands.
pub open spec fn cache_cmds_first(c: CacheView) -> Seq<CmdView> {
    opt_cmd(c.clear_redelegation, CmdView::ClearRedelegationRequest) + opt_cmd(
        c.delegated is Some,
        CmdView::Delegated(c.delegated->0),
    ) + opt_cmd(c.delegate_start_slot is Some, CmdView::DelegateStartSlot(c.delegate_start_slot->0)) + opt_cmd(
        c.inflight_delegation is Some,
        CmdView::InflightDelegation(c.inflight_delegation->0),
    ) + opt_cmd(c.inflight_deposit is Some, CmdView::InflightDeposit(c.inflight_deposit->0))
}

/// The next five cached commands.
pub open spec fn cache_cmds_second(c: CacheView) -> Seq<CmdView> {
    opt_cmd(c.inflight_fee_payable is Some, CmdView::InflightFeePayable(c.inflight_fee_payable->0)) + opt_cmd(
        c.inflight_rewards_receivable is Some,
        CmdView::InflightRewardsReceivable(c.inflight_rewards_receivable->0),
    ) + opt_cmd(c.inflight_unbond is Some, CmdView::InflightUnbond(c.inflight_unbond->0)) + opt_cmd(
        c.last_reconcile_height is Some,
        CmdView::LastReconcileHeight(c.last_reconcile_height->0),
    ) + opt_cmd(c.msg_issued_count is Some, CmdView::MsgIssuedCount(c.msg_issued_count->0))
}

/// The last five cached commands.
pub open spec fn cache_cmds_third(c: CacheView) -> Seq<CmdView> {
    opt_cmd(c.msg_success_count is Some, CmdView::MsgSuccessCount(c.msg_success_count->0)) + opt_cmd(
        c.pending_deposit is Some,
        CmdView::PendingDeposit(c.pending_deposit->0),
    ) + opt_cmd(c.pending_unbond is Some, CmdView::PendingUnbond(c.pending_unbond->0)) + opt_cmd(
        c.undelegate_start_slot is Some,
        CmdView::UndelegateStartSlot(c.undelegate_start_slot->0),
    ) + opt_cmd(c.weights is Some, CmdView::Weights(c.weights->0))
}

/// Appends a command when there is one.
fn push_opt(cmds: &mut Vec<Cmd>, cmd: Option<Cmd>)
    ensures
        cmds_view(final(cmds)@) == cmds_view(old(cmds)@) + match cmd {
            Some(c) => seq![c@],
            None => Seq::<CmdView>::empty(),
        },
{
    match cmd {
        Some(c) => {
            cmds.push(c);
        },
        None => {},
    }
    assert(cmds_view(cmds@) =~= cmds_view(old(cmds)@) + match cmd {
        Some(c) => seq![c@],
        None => Seq::<CmdView>::empty(),
    });
}

impl Cache {
    /// Appends the first five cached commands.
    fn push_first(&self, cmds: &mut Vec<Cmd>)
        ensures
            cmds_view(final(cmds)@) == cmds_view(old(cmds)@) + cache_cmds_first(self@),
    {
        let ghost c = self@;
        let ghost start = cmds_view(cmds@);
        push_opt(cmds, if self.clear_redelegation { Some(Cmd::ClearRedelegationRequest) } else { None });
        push_opt(cmds, match self.delegated { Some(v) => Some(Cmd::Delegated(v)), None => None });
        push_opt(cmds, match self.delegate_start_slot { Some(v) => Some(Cmd::DelegateStartSlot(v)), None => None });
        push_opt(cmds, match self.inflight_delegation { Some(v) => Some(Cmd::InflightDelegation(v)), None => None });
        push_opt(cmds, match self.inflight_deposit { Some(v) => Some(Cmd::InflightDeposit(v)), None => None });
        assert(cmds_view(cmds@) =~= start + cache_cmds_first(c));
    }

    /// Appends the next five cached commands.
    fn push_second(&self, cmds: &mut Vec<Cmd>)
        ensures
            cmds_view(final(cmds)@) == cmds_view(old(cmds)@) + cache_cmds_second(self@),
    {
        let ghost c = self@;
        let ghost start = cmds_view(cmds@);
        push_opt(cmds, match self.inflight_fee_payable { Some(v) => Some(Cmd::InflightFeePayable(v)), None => None });
        push_opt(
            cmds,
            match self.inflight_rewards_receivable { Some(v) => Some(Cmd::InflightRewardsReceivable(v)), None => None },
        );
        push_opt(cmds, match self.inflight_unbond { Some(v) => Some(Cmd::InflightUnbond(v)), None => None });
        push_opt(cmds, match self.last_reconcile_height { Some(v) => Some(Cmd::LastReconcileHeight(v)), None => None });
        push_opt(cmds, match self.msg_issued_count { Some(v) => Some(Cmd::MsgIssuedCount(v)), None => None });
        assert(cmds_view(cmds@) =~= start + cache_cmds_second(c));
    }

    /// Appends the last five cached commands.
    fn push_third(self, cmds: &mut Vec<Cmd>)
        ensures
            cmds_view(final(cmds)@) == cmds_view(old(cmds)@) + cache_cmds_third(self@),
    {
        let ghost c = self@;
        let ghost start = cmds_view(cmds@);
        push_opt(cmds, match self.msg_success_count { Some(v) => Some(Cmd::MsgSuccessCount(v)), None => None });
        push_opt(cmds, match self.pending_deposit { Some(v) => Some(Cmd::PendingDeposit(v)), None => None });
        push_opt(cmds, match self.pending_unbond { Some(v) => Some(Cmd::PendingUnbond(v)), None => None });
        push_opt(cmds, match self.undelegate_start_slot { Some(v) => Some(Cmd::UndelegateStartSlot(v)), None => None });
        push_opt(cmds, match self.weights { Some(w) => Some(Cmd::Weights(w)), None => None });
        assert(cmds_view(cmds@) =~= start + cache_cmds_third(c));
    }

    /// The commands that set the cached values, in a fixed order.
    pub fn into_cmds(self) -> (r: Vec<Cmd>)
        ensures
            cmds_view(r@) == cache_cmds(self@),
    {
        let ghost c = self@;
        let mut cmds: Vec<Cmd> = Vec::new();
        self.push_first(&mut cmds);
        self.push_second(&mut cmds);
        self.push_third(&mut cmds);
        assert(cmds_view(cmds@) =~= cache_cmds(c));
        cmds
    }
}

/// The stored state with the commands of this reconciliation applied over it.
pub struct IntermediateRepo<'a, R: Repository> {
    pub repo: &'a R,
    pub cache: Cache,
}

impl<'a, R: Repository> IntermediateRepo<'a, R> {
    /// Applies a command to the cache.
    pub fn handle_cmd(&mut self, cmd: Cmd)
        requires
            is_cache_cmd(cmd@),
        ensures
            final(self).repo == old(self).repo,
            final(self).cache@ == cache_apply(old(self).cache@, cmd@),
    {
        match cmd {
            Cmd::ClearRedelegationRequest => self.cache.clear_redelegation = true,
            Cmd::DelegateStartSlot(v) => self.cache.delegate_start_slot = Some(v),
            Cmd::Delegated(v) => self.cache.delegated = Some(v),
            Cmd::InflightDelegation(v) => self.cache.inflight_delegation = Some(v),
            Cmd::InflightDeposit(v) => self.cache.inflight_deposit = Some(v),
            Cmd::InflightFeePayable(v) => self.cache.inflight_fee_payable = Some(v),
            Cmd::InflightRewardsReceivable(v) => self.cache.inflight_rewards_receivable = Some(v),
            Cmd::InflightUnbond(v) => self.cache.inflight_unbond = Some(v),
            Cmd::LastReconcileHeight(v) => self.cache.last_reconcile_height = Some(v),
            Cmd::MsgIssuedCount(v) => self.cache.msg_issued_count = Some(v),
            Cmd::MsgSuccessCount(v) => self.cache.msg_success_count = Some(v),
            Cmd::PendingDeposit(v) => self.cache.pending_deposit = Some(v),
            Cmd::PendingUnbond(v) => self.cache.pending_unbond = Some(v),
            Cmd::UndelegateStartSlot(v) => self.cache.undelegate_start_slot = Some(v),
            Cmd::Weights(v) => self.cache.weights = Some(v),
            Cmd::Phase(_) => {},
            Cmd::State(_) => {},
        }
    }
}

impl<'a, R: Repository> Repository for IntermediateRepo<'a, R> {
    open spec fn stored(&self) -> Stored {
        overlay(self.cache@, self.repo.stored())
    }

    fn delegated(&self) -> (r: Delegated) {
        match self.cache.delegated {
            Some(v) => v,
            None => self.repo.delegated(),
        }
    }

    fn delegate_start_slot(&self) -> (r: DelegateStartSlot) {
        match self.cache.delegate_start_slot {
            Some(v) => v,
            None => self.repo.delegate_start_slot(),
        }
    }

    fn inflight_delegation(&self) -> (r: InflightDelegation) {
        match self.cache.inflight_delegation {
            Some(v) => v,
            None => self.repo.inflight_delegation(),
        }
    }

    fn inflight_deposit(&self) -> (r: InflightDeposit) {
        match self.cache.inflight_deposit {
            Some(v) => v,
            None => self.repo.inflight_deposit(),
        }
    }

    fn inflight_fee_payable(&self) -> (r: InflightFeePayable) {
        match self.cache.inflight_fee_payable {
            Some(v) => v,
            None => self.repo.inflight_fee_payable(),
        }
    }

    fn inflight_rewards_receivable(&self) -> (r: InflightRewardsReceivable) {
        match self.cache.inflight_rewards_receivable {
            Some(v) => v,
            None => self.repo.inflight_rewards_receivable(),
        }
    }

    fn inflight_unbond(&self) -> (r: InflightUnbond) {
        match self.cache.inflight_unbond {
            Some(v) => v,
            None => self.repo.inflight_unbond(),
        }
    }

    fn last_reconcile_height(&self) -> (r: Option<LastReconcileHeight>) {
        match self.cache.last_reconcile_height {
            Some(v) => Some(v),
            None => self.repo.last_reconcile_height(),
        }
    }

    fn msg_issued_count(&self) -> (r: MsgIssuedCount) {
        match self.cache.msg_issued_count {
            Some(v) => v,
            None => self.repo.msg_issued_count(),
        }
    }

    fn msg_success_count(&self) -> (r: MsgSuccessCount) {
        match self.cache.msg_success_count {
            Some(v) => v,
            None => self.repo.msg_success_count(),
        }
    }

    fn pending_deposit(&self) -> (r: PendingDeposit) {
        match self.cache.pending_deposit {
            Some(v) => v,
            None => self.repo.pending_deposit(),
        }
    }

    fn pending_unbond(&self) -> (r: PendingUnbond) {
        match self.cache.pending_unbond {
            Some(v) => v,
            None => self.repo.pending_unbond(),
        }
    }

    fn phase(&self) -> (r: Phase) {
        self.repo.phase()
    }

    fn state(&self) -> (r: State) {
        self.repo.state()
    }

    fn redelegation_slot(&self) -> (r: Option<RedelegationSlot>) {
        if self.cache.clear_redelegation {
            return None;
        }
        self.repo.redelegation_slot()
    }

    fn undelegate_start_slot(&self) -> (r: UndelegateStartSlot) {
        match self.cache.undelegate_start_slot {
            Some(v) => v,
            None => self.repo.undelegate_start_slot(),
        }
    }

    fn weights(&self) -> (r: Weights) {
        match &self.cache.weights {
            Some(w) => w.clone(),
            None => self.repo.weights(),
        }
    }
}

} // verus!
